use vstd::prelude::*;

use crate::fields::written_ok;
use crate::pipeline::{
    classify_mapping, embedding_value, spec_classify, spec_source_bytes, spec_source_text,
    FieldMapping, MappingStep,
};
use crate::strutil::str_equal;
use crate::value::{lemma_lookup_after_store, set_field, spec_get, Value};

verus! {

/// A mapping the batch path treats as text: tagged "text", or untagged,
/// which defaults to text.
pub open spec fn is_text_mapping(m: FieldMapping) -> bool {
    m.field_type@ == "text"@ || m.field_type@.len() == 0
}

/// Exec decision matching `is_text_mapping`.
pub fn text_mapping(m: &FieldMapping) -> (r: bool)
    ensures
        r == is_text_mapping(*m),
{
    str_equal(m.field_type.as_str(), "text") || m.field_type.as_str().is_empty()
}

/// Whether the batch path collects this record for encoding: its source
/// field holds a non-empty string. A missing, null, empty or non-string
/// source is passed over.
pub open spec fn batch_included(v: Value, source: Seq<char>) -> bool {
    spec_get(v, source) matches Some(w) && w matches Value::Text(s) && s@.len() > 0
}

/// The text a collected record contributes.
pub open spec fn batch_text(v: Value, source: Seq<char>) -> Seq<char> {
    spec_get(v, source)->Some_0->Text_0@
}

/// The `(record index, text)` pairs a batched encode is built from, in
/// order of first appearance.
pub open spec fn spec_collect(records: Seq<Value>, source: Seq<char>) -> Seq<(int, Seq<char>)>
    decreases records.len(),
{
    if records.len() == 0 {
        Seq::empty()
    } else {
        let prefix = spec_collect(records.drop_last(), source);
        if batch_included(records.last(), source) {
            prefix.push((records.len() - 1, batch_text(records.last(), source)))
        } else {
            prefix
        }
    }
}

/// Collects the texts of one text mapping over all records: index/text
/// pairs for every record whose source is present as a non-empty string,
/// in record order.
pub fn collect_batch(records: &Vec<Value>, m: &FieldMapping) -> (r: (Vec<usize>, Vec<String>))
    ensures
        r.0@.len() == spec_collect(records@, m.source@).len(),
        r.1@.len() == spec_collect(records@, m.source@).len(),
        forall|j: int|
            0 <= j < r.0@.len() ==> r.0@[j] as int == spec_collect(records@, m.source@)[j].0,
        forall|j: int|
            0 <= j < r.1@.len() ==> r.1@[j]@ == spec_collect(records@, m.source@)[j].1,
        forall|j: int| 0 <= j < r.0@.len() ==> r.0@[j] < records@.len(),
        forall|j: int, k: int| 0 <= j < k < r.0@.len() ==> r.0@[j] < r.0@[k],
{
    let n = records.len();
    let mut indices: Vec<usize> = Vec::new();
    let mut texts: Vec<String> = Vec::new();
    let mut i: usize = 0;
    #[verifier::loop_isolation(false)]
    while i < n
        invariant
            0 <= i <= n,
            indices@.len() == spec_collect(records@.take(i as int), m.source@).len(),
            texts@.len() == indices@.len(),
            forall|j: int|
                0 <= j < indices@.len() ==> indices@[j] as int == spec_collect(
                    records@.take(i as int),
                    m.source@,
                )[j].0,
            forall|j: int|
                0 <= j < texts@.len() ==> texts@[j]@ == spec_collect(
                    records@.take(i as int),
                    m.source@,
                )[j].1,
            forall|j: int| 0 <= j < indices@.len() ==> indices@[j] < i,
            forall|j: int, k: int| 0 <= j < k < indices@.len() ==> indices@[j] < indices@[k],
        decreases n - i,
    {
        proof {
            assert(records@.take(i as int + 1).drop_last() =~= records@.take(i as int));
            assert(records@.take(i as int + 1).last() == records@[i as int]);
        }
        match records[i].get(m.source.as_str()) {
            Some(v) => match v {
                Value::Text(s) => {
                    if !s.as_str().is_empty() {
                        indices.push(i);
                        texts.push(s.clone());
                    }
                },
                _ => {},
            },
            None => {},
        }
        i += 1;
    }
    proof {
        assert(records@.take(n as int) =~= records@);
    }
    (indices, texts)
}

/// A record a fallback mapping passes over without an encoder call: its
/// source classifies as a skip, or as a rejection that the batch policy
/// swallows.
pub open spec fn no_encode_needed(v: Value, m: FieldMapping) -> bool {
    !(spec_classify(v, m) is Text) && !(spec_classify(v, m) is Image)
}

/// Nothing of mapping `m` is left to do: a text mapping whose collection
/// over all records is empty, or a fallback mapping none of whose records
/// at or past `lo` needs an encoder.
pub open spec fn mapping_exhausted(records: Seq<Value>, m: FieldMapping, lo: int) -> bool {
    if is_text_mapping(m) {
        spec_collect(records, m.source@).len() == 0
    } else {
        forall|i: int| lo <= i < records.len() ==> no_encode_needed(records[i], m)
    }
}

/// What the driver of a batch run must do next.
#[derive(Debug)]
pub enum BatchAction {
    /// Every mapping is applied; the finished records are in the run.
    Done,
    /// Encode all of `texts` with the text model named `model` in one
    /// call, then hand the vectors back through `supply_batch`; a failure
    /// of the whole call is the batch's failure.
    NeedBatch { texts: Vec<String>, model: String },
    /// Best-effort fallback for one record of a non-text mapping: encode
    /// this text, then answer through `supply_one`; on failure answer
    /// `None` and the field is left unset.
    NeedOneText { text: String, model: String },
    /// Best-effort fallback for one record of a non-text mapping: encode
    /// these image bytes, then answer through `supply_one`.
    NeedOneImage { bytes: Vec<u8>, model: String },
}

/// One in-progress `vectorize_fields_batch` call. Text mappings are
/// batched: the texts of all records are collected into one encoder call
/// and the vectors scattered back by recorded index. Any other mapping
/// falls back to per-record handling in which failures are swallowed so
/// that one bad record does not spoil the batch.
pub struct BatchRun {
    pub records: Vec<Value>,
    pub mappings: Vec<FieldMapping>,
    /// The mapping being applied.
    pub mpos: usize,
    /// Within a fallback mapping, the record being handled.
    pub rpos: usize,
    /// For a pending batched encode, the collected record indices.
    pub indices: Vec<usize>,
}

impl BatchRun {
    /// A run at its first mapping.
    pub fn new(records: Vec<Value>, mappings: Vec<FieldMapping>) -> (r: BatchRun)
        ensures
            r.records == records,
            r.mappings == mappings,
            r.mpos == 0,
            r.rpos == 0,
    {
        BatchRun { records, mappings, mpos: 0, rpos: 0, indices: Vec::new() }
    }

    /// The records as transformed so far; after `next` returns `Done`,
    /// the finished batch.
    pub fn into_records(self) -> (r: Vec<Value>)
        ensures
            r == self.records,
    {
        self.records
    }

    /// Decides the next step. The run only moves forward, and a mapping
    /// or record is passed over only when it has nothing to embed: a text
    /// mapping only with an empty collection, a fallback record only when
    /// its source classifies as a skip or a swallowed rejection. No
    /// record is touched.
    pub fn next(&mut self) -> (r: BatchAction)
        requires
            old(self).mpos <= old(self).mappings@.len(),
            old(self).rpos <= old(self).records@.len(),
        ensures
            final(self).records == old(self).records,
            final(self).mappings == old(self).mappings,
            old(self).mpos <= final(self).mpos <= final(self).mappings@.len(),
            final(self).rpos <= final(self).records@.len(),
            final(self).mpos == old(self).mpos ==> old(self).rpos <= final(self).rpos,
            old(self).mpos < final(self).mpos ==> mapping_exhausted(
                old(self).records@,
                old(self).mappings@[old(self).mpos as int],
                old(self).rpos as int,
            ),
            forall|k: int|
                old(self).mpos < k < final(self).mpos ==> mapping_exhausted(
                    old(self).records@,
                    old(self).mappings@[k],
                    0,
                ),
            final(self).mpos < final(self).mappings@.len() && !is_text_mapping(
                final(self).mappings@[final(self).mpos as int],
            ) ==> forall|i: int|
                (if final(self).mpos == old(self).mpos {
                    old(self).rpos as int
                } else {
                    0
                }) <= i < final(self).rpos ==> no_encode_needed(
                    final(self).records@[i],
                    final(self).mappings@[final(self).mpos as int],
                ),
            match r {
                BatchAction::Done => final(self).mpos == final(self).mappings@.len(),
                BatchAction::NeedBatch { texts, model } => {
                    &&& final(self).mpos < final(self).mappings@.len()
                    &&& is_text_mapping(final(self).mappings@[final(self).mpos as int])
                    &&& model@ == final(self).mappings@[final(self).mpos as int].model@
                    &&& texts@.len() > 0
                    &&& texts@.len() == spec_collect(
                        final(self).records@,
                        final(self).mappings@[final(self).mpos as int].source@,
                    ).len()
                    &&& final(self).indices@.len() == texts@.len()
                    &&& forall|j: int|
                        0 <= j < texts@.len() ==> texts@[j]@ == spec_collect(
                            final(self).records@,
                            final(self).mappings@[final(self).mpos as int].source@,
                        )[j].1
                    &&& forall|j: int|
                        0 <= j < final(self).indices@.len() ==> final(self).indices@[j] as int
                            == spec_collect(
                            final(self).records@,
                            final(self).mappings@[final(self).mpos as int].source@,
                        )[j].0
                    &&& forall|j: int|
                        0 <= j < final(self).indices@.len() ==> (final(self).indices@[j] as int)
                            < final(self).records@.len()
                    &&& forall|j: int, k: int|
                        0 <= j < k < final(self).indices@.len() ==> final(self).indices@[j]
                            < final(self).indices@[k]
                },
                BatchAction::NeedOneText { text, model } => {
                    &&& final(self).mpos < final(self).mappings@.len()
                    &&& !is_text_mapping(final(self).mappings@[final(self).mpos as int])
                    &&& final(self).rpos < final(self).records@.len()
                    &&& spec_classify(
                        final(self).records@[final(self).rpos as int],
                        final(self).mappings@[final(self).mpos as int],
                    ) is Text
                    &&& text@ == spec_source_text(
                        final(self).records@[final(self).rpos as int],
                        final(self).mappings@[final(self).mpos as int],
                    )
                    &&& model@ == final(self).mappings@[final(self).mpos as int].model@
                },
                BatchAction::NeedOneImage { bytes, model } => {
                    &&& final(self).mpos < final(self).mappings@.len()
                    &&& !is_text_mapping(final(self).mappings@[final(self).mpos as int])
                    &&& final(self).rpos < final(self).records@.len()
                    &&& spec_classify(
                        final(self).records@[final(self).rpos as int],
                        final(self).mappings@[final(self).mpos as int],
                    ) is Image
                    &&& bytes@ == spec_source_bytes(
                        final(self).records@[final(self).rpos as int],
                        final(self).mappings@[final(self).mpos as int],
                    )
                    &&& model@ == final(self).mappings@[final(self).mpos as int].model@
                },
            },
    {
        let mlen = self.mappings.len();
        let rlen = self.records.len();
        #[verifier::loop_isolation(false)]
        while self.mpos < mlen
            invariant
                old(self).mpos <= self.mpos <= mlen,
                self.rpos <= rlen,
                self.records == old(self).records,
                self.mappings == old(self).mappings,
                self.mpos == old(self).mpos ==> old(self).rpos <= self.rpos,
                old(self).mpos < self.mpos ==> mapping_exhausted(
                    self.records@,
                    self.mappings@[old(self).mpos as int],
                    old(self).rpos as int,
                ),
                forall|k: int|
                    old(self).mpos < k < self.mpos ==> mapping_exhausted(
                        self.records@,
                        self.mappings@[k],
                        0,
                    ),
                self.mpos < mlen && !is_text_mapping(self.mappings@[self.mpos as int])
                    ==> forall|i: int|
                    (if self.mpos == old(self).mpos {
                        old(self).rpos as int
                    } else {
                        0
                    }) <= i < self.rpos ==> no_encode_needed(
                        self.records@[i],
                        self.mappings@[self.mpos as int],
                    ),
            decreases mlen - self.mpos, rlen - self.rpos,
        {
            if text_mapping(&self.mappings[self.mpos]) {
                let (indices, texts) = collect_batch(&self.records, &self.mappings[self.mpos]);
                if texts.len() == 0 {
                    proof {
                        assert(spec_collect(
                            self.records@,
                            self.mappings@[self.mpos as int].source@,
                        ).len() == 0);
                        assert(mapping_exhausted(
                            self.records@,
                            self.mappings@[self.mpos as int],
                            0,
                        ));
                        assert(mapping_exhausted(
                            self.records@,
                            self.mappings@[self.mpos as int],
                            old(self).rpos as int,
                        ));
                    }
                    self.mpos = self.mpos + 1;
                    self.rpos = 0;
                } else {
                    self.indices = indices;
                    let model = self.mappings[self.mpos].model.clone();
                    return BatchAction::NeedBatch { texts, model };
                }
            } else {
                if self.rpos < rlen {
                    let step = classify_mapping(&self.records[self.rpos], &self.mappings[self.mpos]);
                    match step {
                        MappingStep::Skip => {
                            proof {
                                assert(no_encode_needed(
                                    self.records@[self.rpos as int],
                                    self.mappings@[self.mpos as int],
                                ));
                            }
                            self.rpos = self.rpos + 1;
                        },
                        MappingStep::Reject { error: _ } => {
                            proof {
                                assert(no_encode_needed(
                                    self.records@[self.rpos as int],
                                    self.mappings@[self.mpos as int],
                                ));
                            }
                            self.rpos = self.rpos + 1;
                        },
                        MappingStep::EncodeText { text } => {
                            let model = self.mappings[self.mpos].model.clone();
                            return BatchAction::NeedOneText { text, model };
                        },
                        MappingStep::EncodeImage { bytes } => {
                            let model = self.mappings[self.mpos].model.clone();
                            return BatchAction::NeedOneImage { bytes, model };
                        },
                    }
                } else {
                    proof {
                        assert(self.rpos == rlen);
                        assert(mapping_exhausted(
                            self.records@,
                            self.mappings@[self.mpos as int],
                            if self.mpos == old(self).mpos {
                                old(self).rpos as int
                            } else {
                                0
                            },
                        ));
                    }
                    self.mpos = self.mpos + 1;
                    self.rpos = 0;
                }
            }
        }
        BatchAction::Done
    }

    /// Scatters the vectors of one batched encode back into the collected
    /// records, pairing vectors with recorded indices in submission
    /// order; every other record is untouched. Then moves to the next
    /// mapping.
    pub fn supply_batch(&mut self, embs: Vec<Vec<u64>>)
        requires
            old(self).mpos < old(self).mappings@.len(),
            forall|j: int|
                0 <= j < old(self).indices@.len() ==> old(self).indices@[j] < old(self).records@.len(),
            forall|j: int, k: int|
                0 <= j < k < old(self).indices@.len() ==> old(self).indices@[j] < old(self).indices@[k],
        ensures
            final(self).mappings == old(self).mappings,
            final(self).mpos == old(self).mpos + 1,
            final(self).rpos == 0,
            final(self).records@.len() == old(self).records@.len(),
            forall|j: int|
                0 <= j < old(self).indices@.len() && j < embs@.len() ==> written_ok(
                    final(self).records@[old(self).indices@[j] as int],
                    old(self).records@[old(self).indices@[j] as int],
                    old(self).mappings@[old(self).mpos as int].target@,
                    embs@[j]@,
                ),
            forall|i: int|
                0 <= i < old(self).records@.len() && !(exists|j: int|
                    0 <= j < old(self).indices@.len() && j < embs@.len() && old(self).indices@[j] == i) ==> final(self).records@[i] == old(self).records@[i],
    {
        let mlen = self.mappings.len();
        assert(self.mpos < mlen);
        let n = if self.indices.len() <= embs.len() {
            self.indices.len()
        } else {
            embs.len()
        };
        let target = self.mappings[self.mpos].target.clone();
        let mut j: usize = 0;
        #[verifier::loop_isolation(false)]
        while j < n
            invariant
                0 <= j <= n,
                n <= self.indices@.len(),
                n <= embs@.len(),
                self.indices == old(self).indices,
                self.mappings == old(self).mappings,
                self.mpos == old(self).mpos,
                self.records@.len() == old(self).records@.len(),
                forall|jj: int|
                    0 <= jj < j ==> written_ok(
                        self.records@[self.indices@[jj] as int],
                        old(self).records@[self.indices@[jj] as int],
                        old(self).mappings@[old(self).mpos as int].target@,
                        embs@[jj]@,
                    ),
                forall|i: int|
                    0 <= i < self.records@.len() && !(exists|jj: int|
                        0 <= jj < j && self.indices@[jj] == i) ==> self.records@[i] == old(self).records@[i],
            decreases n - j,
        {
            let idx = self.indices[j];
            let ghost prev = self.records@;
            let prior = self.records.remove(idx);
            let ghost gprior = prior;
            let w = embedding_value(&embs[j]);
            let tc = target.clone();
            let written = set_field(prior, tc, w);
            proof {
                if gprior is Object {
                    lemma_lookup_after_store(gprior->Object_0@, tc, w);
                }
            }
            self.records.insert(idx, written);
            proof {
                assert(self.records@ =~= prev.update(idx as int, written));
                assert(!(exists|jj: int| 0 <= jj < j && self.indices@[jj] == idx));
                assert(prev[idx as int] == old(self).records@[idx as int]);
                assert(written_ok(
                    written,
                    old(self).records@[idx as int],
                    old(self).mappings@[old(self).mpos as int].target@,
                    embs@[j as int]@,
                ));
            }
            j += 1;
        }
        self.mpos = self.mpos + 1;
        self.rpos = 0;
    }

    /// Writes one fallback record's delivered vector under the current
    /// mapping's target — or, on `None`, leaves the record exactly as it
    /// was, the swallowed-failure policy of the batch fallback. Then
    /// moves to the next record.
    pub fn supply_one(&mut self, embedding: Option<&Vec<u64>>)
        requires
            old(self).mpos < old(self).mappings@.len(),
            old(self).rpos < old(self).records@.len(),
        ensures
            final(self).mappings == old(self).mappings,
            final(self).mpos == old(self).mpos,
            final(self).rpos == old(self).rpos + 1,
            final(self).records@.len() == old(self).records@.len(),
            match embedding {
                Some(e) => written_ok(
                    final(self).records@[old(self).rpos as int],
                    old(self).records@[old(self).rpos as int],
                    old(self).mappings@[old(self).mpos as int].target@,
                    e@,
                ) && (forall|i: int|
                    0 <= i < old(self).records@.len() && i != old(self).rpos ==> final(self).records@[i] == old(self).records@[i]),
                None => final(self).records == old(self).records,
            },
    {
        let rlen = self.records.len();
        assert(self.rpos < rlen);
        match embedding {
            Some(e) => {
                let target = self.mappings[self.mpos].target.clone();
                let prior = self.records.remove(self.rpos);
                let ghost gprior = prior;
                let w = embedding_value(e);
                let written = set_field(prior, target, w);
                proof {
                    if gprior is Object {
                        lemma_lookup_after_store(gprior->Object_0@, target, w);
                    }
                }
                self.records.insert(self.rpos, written);
            },
            None => {},
        }
        self.rpos = self.rpos + 1;
    }
}

} // verus!

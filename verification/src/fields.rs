use vstd::prelude::*;

use crate::errors::VectorError;
use crate::pipeline::{
    classify_mapping, embedding_value, is_embedding_value, spec_classify, spec_source_bytes,
    spec_source_text, FieldMapping, MappingStep, StepKind,
};
use crate::value::{lemma_lookup_after_store, set_field, spec_get, spec_store, Value};

verus! {

/// The error a rejected mapping step surfaces, by the kind of rejection.
pub open spec fn reject_ok(record: Value, m: FieldMapping, error: VectorError) -> bool {
    match spec_classify(record, m) {
        StepKind::RejectImageType => error matches VectorError::ImageSourceNotText { field }
            && field@ == m.source@,
        StepKind::RejectImageDecode => error matches VectorError::ImageDecode { field, cause }
            && field@ == m.source@,
        StepKind::RejectTextType => error matches VectorError::TextSourceNotText { field }
            && field@ == m.source@,
        _ => false,
    }
}

/// What writing an embedding under `target` leaves behind: on an object,
/// the target field reads back as the embedding's numeric array and every
/// other field reads exactly as before; a non-object stays untouched.
pub open spec fn written_ok(new: Value, prior: Value, target: Seq<char>, emb: Seq<u64>) -> bool {
    if prior is Object {
        &&& new is Object
        &&& spec_get(new, target) matches Some(w) && is_embedding_value(w, emb)
        &&& forall|k: Seq<char>| k != target ==> spec_get(new, k) == spec_get(prior, k)
    } else {
        new == prior
    }
}

/// What the driver of a run must do next: encode something, stop on a
/// failure, or finish.
#[derive(Debug)]
pub enum FieldsAction {
    /// Every mapping is applied; the finished record is in the run.
    Done,
    /// Encode this text with the text model named `model`, then hand the
    /// vector back through `supply`.
    NeedText { text: String, model: String },
    /// Encode these image bytes with the image model named `model`, then
    /// hand the vector back through `supply`.
    NeedImage { bytes: Vec<u8>, model: String },
    /// A mapping rejected its source value; the whole call fails with
    /// this error, and writes applied before it stay in place.
    Failed { error: VectorError },
}

/// One in-progress `vectorize_fields` call: the record being transformed
/// and the mappings applied to it, in order. The run decides and writes;
/// the caller only encodes. Each `next` walks forward over skipped
/// mappings and stops at the first mapping that needs an encoder or
/// rejects its input; `supply` writes a delivered vector to the current
/// mapping's target and moves on.
pub struct FieldsRun {
    pub record: Value,
    pub mappings: Vec<FieldMapping>,
    pub pos: usize,
}

impl FieldsRun {
    /// A run at its first mapping.
    pub fn new(record: Value, mappings: Vec<FieldMapping>) -> (r: FieldsRun)
        ensures
            r.record == record,
            r.mappings == mappings,
            r.pos == 0,
    {
        FieldsRun { record, mappings, pos: 0 }
    }

    /// The record as transformed so far; after `next` returns `Done`,
    /// the finished record.
    pub fn into_record(self) -> (r: Value)
        ensures
            r == self.record,
    {
        self.record
    }

    /// Decides the next step: skips every mapping with nothing to embed,
    /// in order, and stops at the first that needs an encoder, rejects
    /// its input, or at the end. The record is not changed.
    pub fn next(&mut self) -> (r: FieldsAction)
        requires
            old(self).pos <= old(self).mappings@.len(),
        ensures
            final(self).record == old(self).record,
            final(self).mappings == old(self).mappings,
            old(self).pos <= final(self).pos <= final(self).mappings@.len(),
            forall|k: int|
                old(self).pos <= k < final(self).pos ==> spec_classify(
                    final(self).record,
                    final(self).mappings@[k],
                ) is Skip,
            match r {
                FieldsAction::Done => final(self).pos == final(self).mappings@.len(),
                FieldsAction::NeedText { text, model } => {
                    &&& final(self).pos < final(self).mappings@.len()
                    &&& spec_classify(
                        final(self).record,
                        final(self).mappings@[final(self).pos as int],
                    ) is Text
                    &&& text@ == spec_source_text(
                        final(self).record,
                        final(self).mappings@[final(self).pos as int],
                    )
                    &&& model@ == final(self).mappings@[final(self).pos as int].model@
                },
                FieldsAction::NeedImage { bytes, model } => {
                    &&& final(self).pos < final(self).mappings@.len()
                    &&& spec_classify(
                        final(self).record,
                        final(self).mappings@[final(self).pos as int],
                    ) is Image
                    &&& bytes@ == spec_source_bytes(
                        final(self).record,
                        final(self).mappings@[final(self).pos as int],
                    )
                    &&& model@ == final(self).mappings@[final(self).pos as int].model@
                },
                FieldsAction::Failed { error } => {
                    &&& final(self).pos < final(self).mappings@.len()
                    &&& reject_ok(
                        final(self).record,
                        final(self).mappings@[final(self).pos as int],
                        error,
                    )
                },
            },
    {
        let n = self.mappings.len();
        #[verifier::loop_isolation(false)]
        while self.pos < n
            invariant
                old(self).pos <= self.pos <= n,
                self.record == old(self).record,
                self.mappings == old(self).mappings,
                forall|k: int|
                    old(self).pos <= k < self.pos ==> spec_classify(
                        self.record,
                        self.mappings@[k],
                    ) is Skip,
            decreases n - self.pos,
        {
            let step = classify_mapping(&self.record, &self.mappings[self.pos]);
            match step {
                MappingStep::Skip => {
                    self.pos = self.pos + 1;
                },
                MappingStep::EncodeText { text } => {
                    let model = self.mappings[self.pos].model.clone();
                    return FieldsAction::NeedText { text, model };
                },
                MappingStep::EncodeImage { bytes } => {
                    let model = self.mappings[self.pos].model.clone();
                    return FieldsAction::NeedImage { bytes, model };
                },
                MappingStep::Reject { error } => {
                    return FieldsAction::Failed { error };
                },
            }
        }
        FieldsAction::Done
    }

    /// Writes a delivered embedding vector into the current mapping's
    /// target field, overwriting any prior value there and leaving every
    /// other field untouched, then moves to the next mapping.
    pub fn supply(&mut self, embedding: &Vec<u64>)
        requires
            old(self).pos < old(self).mappings@.len(),
        ensures
            final(self).mappings == old(self).mappings,
            final(self).pos == old(self).pos + 1,
            written_ok(
                final(self).record,
                old(self).record,
                old(self).mappings@[old(self).pos as int].target@,
                embedding@,
            ),
            old(self).record matches Value::Object(pairs) ==> exists|w: Value|
                is_embedding_value(w, embedding@) && (final(self).record matches Value::Object(rp)
                    && rp@ == spec_store(
                    pairs@,
                    old(self).mappings@[old(self).pos as int].target,
                    w,
                )),
    {
        let n = self.mappings.len();
        assert(self.pos < n);
        let w = embedding_value(embedding);
        let target = self.mappings[self.pos].target.clone();
        let mut taken = Value::Null;
        core::mem::swap(&mut taken, &mut self.record);
        let ghost prior = taken;
        let written = set_field(taken, target, w);
        proof {
            if prior is Object {
                lemma_lookup_after_store(prior->Object_0@, target, w);
            }
        }
        self.record = written;
        self.pos = self.pos + 1;
    }
}

} // verus!

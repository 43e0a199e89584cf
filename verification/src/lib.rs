//! A model cache and vectorization engine: routes named record fields
//! through text and image encoder models and writes the resulting
//! embedding vectors back into the record under target field names.

pub mod batch;
pub mod cache;
pub mod dirs;
pub mod errors;
pub mod fields;
pub mod models;
pub mod pipeline;
pub mod strutil;
pub mod value;

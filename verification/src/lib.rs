//! Line, word, byte and character counts of text, as the `wc` utility reports them.

pub mod record;
pub mod text;
pub mod growth;
pub mod scan;
pub mod count;
pub mod render;
pub mod plan;

use vstd::prelude::*;

verus! {

/// The counts that `wc` reports for one input.
#[derive(Debug, Clone, Copy, PartialEq, Eq, Structural)]
pub struct FileInfo {
    pub num_lines: usize,
    pub num_words: usize,
    pub num_bytes: usize,
    pub num_chars: usize,
    pub max_line_length: usize,
}

} // verus!

//! Tail extraction and the small text tools around it.
//!
//! The core is a multi-source `tail`: offset tokens are read into a
//! [`TakeValue`] (`offset`), each source's line and byte totals are counted in
//! one forward pass (`extent`), the start position is resolved from the two
//! (`resolve`), and lines or bytes from that position on are emitted
//! (`extract`, `driver`). Alongside stand the pure parts of `head`, `cut`,
//! `uniq`, `cal`, `ls` and `wc`.

use vstd::prelude::*;

pub mod decimal;
pub mod driver;
pub mod extent;
pub mod extract;
pub mod offset;
pub mod resolve;
pub mod split;
pub mod text;

pub mod cal;
pub mod cut;
pub mod head;
pub mod ls;
pub mod uniq;
pub mod wc;

pub use offset::TakeValue;
pub use resolve::get_start_index;

use vstd::prelude::*;
use crate::offset::TakeValue;
use crate::resolve::{get_start_index, start_index};

verus! {

/// Decides, line after line, which lines of a source are emitted: every line
/// from the resolved start index on, none at all when there is no start.
pub struct LineSelector {
    start: Option<u64>,
    line_num: u64,
}

impl LineSelector {
    /// The resolved start index.
    pub closed spec fn first(&self) -> Option<int> {
        match self.start {
            Some(s) => Some(s as int),
            None => None,
        }
    }

    /// The index of the next line to be decided on (it stops growing at
    /// `u64::MAX`).
    pub closed spec fn position(&self) -> int {
        self.line_num as int
    }

    /// A selector for `offset` applied to a source of `total_lines` lines.
    pub fn new(offset: &TakeValue, total_lines: i64) -> (r: LineSelector)
        requires
            total_lines >= 0,
        ensures
            r.first() == start_index(*offset, total_lines as int),
            r.position() == 0,
    {
        LineSelector { start: get_start_index(offset, total_lines), line_num: 0 }
    }

    /// Decides on the next line: `true` when it is to be emitted.
    pub fn next_line(&mut self) -> (emit: bool)
        ensures
            final(self).first() == old(self).first(),
            emit == (old(self).first() matches Some(s) && old(self).position() >= s),
            final(self).position() == if old(self).position() < u64::MAX {
                old(self).position() + 1
            } else {
                old(self).position()
            },
    {
        let emit = match self.start {
            Some(s) => self.line_num >= s,
            None => false,
        };
        if self.line_num < u64::MAX {
            self.line_num = self.line_num + 1;
        }
        emit
    }
}

} // verus!

use vstd::prelude::*;
use crate::offset::{offset_of, parse_num, ConfigError, TakeValue};
use crate::resolve::{get_start_index, start_index};

verus! {

/// The counting unit of one run.
#[derive(Debug, Clone, Copy, PartialEq, Eq, Structural)]
pub enum Unit {
    Lines,
    Bytes,
}

/// The offset used when no count is given: the last ten lines.
pub const DEFAULT_LINES: i64 = -10;

/// The settings of one run, shared read-only by all its sources.
pub struct Config {
    pub files: Vec<String>,
    pub unit: Unit,
    pub offset: TakeValue,
    pub quiet: bool,
}

/// What the settings come to when `token` is the one count given, in `unit`.
pub open spec fn settles(r: Result<Config, ConfigError>, token: Seq<char>, unit: Unit) -> bool {
    match offset_of(token) {
        Some(v) => (r matches Ok(c) && c.unit == unit && c.offset == v),
        None => (r matches Err(ConfigError::InvalidOffset(t)) && t@ == token),
    }
}

impl Config {
    /// Checks the settings before any source is touched. A line count and a
    /// byte count together conflict; a byte count replaces the default line
    /// count; a malformed token is refused verbatim.
    pub fn new(files: Vec<String>, lines: Option<&str>, bytes: Option<&str>, quiet: bool) -> (r:
        Result<Config, ConfigError>)
        ensures
            match (lines, bytes) {
                (Some(_), Some(_)) => r == Err::<Config, ConfigError>(ConfigError::ConflictingUnits),
                (None, Some(b)) => settles(r, b@, Unit::Bytes),
                (Some(l), None) => settles(r, l@, Unit::Lines),
                (None, None) => (r matches Ok(c) && c.unit == Unit::Lines && c.offset
                    == TakeValue::TakeNum(DEFAULT_LINES)),
            },
            r matches Ok(c) ==> c.files@ == files@ && c.quiet == quiet,
    {
        let (unit, token) = match (lines, bytes) {
            (Some(_), Some(_)) => {
                return Err(ConfigError::ConflictingUnits);
            },
            (None, Some(b)) => (Unit::Bytes, b),
            (Some(l), None) => (Unit::Lines, l),
            (None, None) => {
                return Ok(
                    Config { files, unit: Unit::Lines, offset: TakeValue::TakeNum(DEFAULT_LINES), quiet },
                );
            },
        };
        match parse_num(token) {
            Ok(offset) => Ok(Config { files, unit, offset, quiet }),
            Err(e) => Err(e),
        }
    }

    /// Where emission begins in a source of `lines` lines and `bytes` bytes,
    /// counted in this run's unit.
    pub fn start_for(&self, lines: i64, bytes: i64) -> (r: Option<u64>)
        requires
            lines >= 0,
            bytes >= 0,
        ensures
            match r {
                Some(s) => start_index(self.offset, self.total(lines, bytes)) == Some(s as int),
                None => start_index(self.offset, self.total(lines, bytes)) is None,
            },
    {
        match self.unit {
            Unit::Lines => get_start_index(&self.offset, lines),
            Unit::Bytes => get_start_index(&self.offset, bytes),
        }
    }

    /// The extent of a source in this run's unit.
    pub open spec fn total(&self, lines: i64, bytes: i64) -> int {
        match self.unit {
            Unit::Lines => lines as int,
            Unit::Bytes => bytes as int,
        }
    }
}

/// The banner above a source's output: `==> name <==`, after a blank line
/// when another banner came before it.
pub open spec fn banner_text(name: Seq<char>, separated: bool) -> Seq<char> {
    (if separated { seq!['\n'] } else { Seq::empty() }) + seq!['=', '=', '>', ' '] + name + seq![
        ' ',
        '<',
        '=',
        '=',
    ]
}

/// Which banners a run prints: one per source that could be opened, when
/// there are several sources and banners are not suppressed.
pub struct Banners {
    show: bool,
    printed: bool,
}

impl Banners {
    /// Whether this run prints banners at all.
    pub closed spec fn shows(&self) -> bool {
        self.show
    }

    /// Whether a banner was printed already.
    pub closed spec fn started(&self) -> bool {
        self.printed
    }

    /// Banners for a run over `num_sources` sources.
    pub fn new(num_sources: usize, quiet: bool) -> (r: Banners)
        ensures
            r.shows() == (num_sources > 1 && !quiet),
            !r.started(),
    {
        Banners { show: num_sources > 1 && !quiet, printed: false }
    }

    /// The banner for the next source that was opened, if any.
    pub fn banner(&mut self, name: &str) -> (r: Option<String>)
        ensures
            final(self).shows() == old(self).shows(),
            final(self).started() == (old(self).started() || old(self).shows()),
            old(self).shows() ==> (r matches Some(t) && t@ == banner_text(
                name@,
                old(self).started(),
            )),
            !old(self).shows() ==> r is None,
    {
        if !self.show {
            return None;
        }
        let mut t = String::new();
        proof {
            reveal_strlit("\n");
            reveal_strlit("==> ");
            reveal_strlit(" <==");
        }
        if self.printed {
            t.append("\n");
        }
        t.append("==> ");
        t.append(name);
        t.append(" <==");
        self.printed = true;
        assert(t@ =~= banner_text(name@, old(self).started()));
        Some(t)
    }
}

} // verus!

use vstd::prelude::*;

verus! {

/// One character of a permission string: `c` when all bits of `code` are set
/// in `mode`, `-` otherwise.
pub open spec fn permission(mode: u32, code: u32, c: char) -> Seq<char> {
    if mode & code == code {
        seq![c]
    } else {
        seq!['-']
    }
}

/// The nine-character permission string of `mode`, owner first. The
/// others' write bit is shown as `x`.
pub open spec fn mode_string(mode: u32) -> Seq<char> {
    permission(mode, 0o400, 'r') + permission(mode, 0o200, 'w') + permission(mode, 0o100, 'x')
        + permission(mode, 0o040, 'r') + permission(mode, 0o020, 'w') + permission(
        mode,
        0o010,
        'x',
    ) + permission(mode, 0o004, 'r') + permission(mode, 0o002, 'x') + permission(
        mode,
        0o001,
        'x',
    )
}

/// `out` when all bits of `code` are set in `mode`, `-` otherwise.
pub fn match_permission(mode: u32, code: u32, out: &str) -> (r: String)
    ensures
        r@ == if mode & code == code {
            out@
        } else {
            seq!['-']
        },
{
    proof {
        reveal_strlit("-");
    }
    if mode & code == code {
        out.to_owned()
    } else {
        String::from_str("-")
    }
}

/// The permission string of a file mode given in octal, such as `rwxr-x--x`
/// for `0o751`.
pub fn format_mode(mode: u32) -> (r: String)
    ensures
        r@ == mode_string(mode),
{
    proof {
        reveal_strlit("r");
        reveal_strlit("w");
        reveal_strlit("x");
    }
    let mut t = String::new();
    let ghost mut want = Seq::<char>::empty();
    let p = match_permission(mode, 0o400, "r");
    assert(p@ == permission(mode, 0o400, 'r'));
    proof {
        want = want + permission(mode, 0o400, 'r');
    }
    t.append(p.as_str());
    assert(t@ == want);
    let p = match_permission(mode, 0o200, "w");
    assert(p@ == permission(mode, 0o200, 'w'));
    proof {
        want = want + permission(mode, 0o200, 'w');
    }
    t.append(p.as_str());
    assert(t@ == want);
    let p = match_permission(mode, 0o100, "x");
    assert(p@ == permission(mode, 0o100, 'x'));
    proof {
        want = want + permission(mode, 0o100, 'x');
    }
    t.append(p.as_str());
    assert(t@ == want);
    let p = match_permission(mode, 0o040, "r");
    assert(p@ == permission(mode, 0o040, 'r'));
    proof {
        want = want + permission(mode, 0o040, 'r');
    }
    t.append(p.as_str());
    assert(t@ == want);
    let p = match_permission(mode, 0o020, "w");
    assert(p@ == permission(mode, 0o020, 'w'));
    proof {
        want = want + permission(mode, 0o020, 'w');
    }
    t.append(p.as_str());
    assert(t@ == want);
    let p = match_permission(mode, 0o010, "x");
    assert(p@ == permission(mode, 0o010, 'x'));
    proof {
        want = want + permission(mode, 0o010, 'x');
    }
    t.append(p.as_str());
    assert(t@ == want);
    let p = match_permission(mode, 0o004, "r");
    assert(p@ == permission(mode, 0o004, 'r'));
    proof {
        want = want + permission(mode, 0o004, 'r');
    }
    t.append(p.as_str());
    assert(t@ == want);
    let p = match_permission(mode, 0o002, "x");
    assert(p@ == permission(mode, 0o002, 'x'));
    proof {
        want = want + permission(mode, 0o002, 'x');
    }
    t.append(p.as_str());
    assert(t@ == want);
    let p = match_permission(mode, 0o001, "x");
    assert(p@ == permission(mode, 0o001, 'x'));
    proof {
        want = want + permission(mode, 0o001, 'x');
    }
    t.append(p.as_str());
    assert(t@ == want);
    assert(want =~= mode_string(mode));
    t
}

} // verus!

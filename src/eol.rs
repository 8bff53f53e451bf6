use vstd::prelude::*;

verus! {

/// The line ending that `s` ends with: `"\r\n"`, `"\n"`, or nothing.
pub open spec fn eol_of(s: Seq<char>) -> Seq<char> {
    let n = s.len();
    if n >= 2 && s[n - 2] == '\r' && s[n - 1] == '\n' {
        seq!['\r', '\n']
    } else if n >= 1 && s[n - 1] == '\n' {
        seq!['\n']
    } else {
        seq![]
    }
}

/// The line ending that `s` ends with, so that output can keep it.
pub fn get_eol(s: &str) -> (r: &'static str)
    ensures
        r@ == eol_of(s@),
{
    let n = s.unicode_len();
    if n >= 2 && s.get_char(n - 2) == '\r' && s.get_char(n - 1) == '\n' {
        proof {
            reveal_strlit("\r\n");
        }
        "\r\n"
    } else if n >= 1 && s.get_char(n - 1) == '\n' {
        proof {
            reveal_strlit("\n");
        }
        "\n"
    } else {
        proof {
            reveal_strlit("");
        }
        ""
    }
}

} // verus!

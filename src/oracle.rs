//! One round of the oracle: a line of input becomes one of two reply tokens.
use vstd::prelude::*;
use vstd::utf8::encode_utf8;
use crate::flag::{accepts, check_flag, target_table};

verus! {

/// The line with leading and trailing whitespace removed, as `str::trim`
/// computes it.
pub uninterp spec fn trimmed(s: Seq<char>) -> Seq<char>;

/// Relies on `str::trim`: the line without its leading and trailing Unicode
/// whitespace, a result that depends on the line's characters alone.
#[verifier::external_body]
fn trim(line: &str) -> (r: &str)
    ensures
        r@ == trimmed(line@),
{
    line.trim()
}

/// The reply token: `gj` when the flag is accepted, `bj` when
/// it is not.
pub open spec fn token(accepted: bool) -> Seq<char> {
    if accepted {
        seq!['g', 'j']
    } else {
        seq!['b', 'j']
    }
}

/// The reply token for a verdict.
pub fn reply(accepted: bool) -> (r: &'static str)
    ensures
        r@ == token(accepted),
{
    if accepted {
        proof {
            reveal_strlit("gj");
        }
        "gj"
    } else {
        proof {
            reveal_strlit("bj");
        }
        "bj"
    }
}

/// Answers one line of input: the line is trimmed, checked against the
/// embedded table, and the verdict turned into its token. The answer depends
/// on the line alone, so the same line always gets the same token.
pub fn respond(line: &str) -> (r: &'static str)
    ensures
        r@ == token(accepts(encode_utf8(trimmed(line@)), target_table())),
{
    let flag = trim(line);
    let ok = check_flag(flag);
    reply(ok)
}

} // verus!

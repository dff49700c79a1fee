//! Text handling for task descriptions: trimming and the footer line.

use vstd::prelude::*;
use vstd::string::StringExecFns;

verus! {

/// The Unicode `White_Space` property of a character.
pub uninterp spec fn is_white(c: char) -> bool;

/// `s` with its leading white space removed.
pub open spec fn strip_start(s: Seq<char>) -> Seq<char>
    decreases s.len(),
{
    if s.len() > 0 && is_white(s[0]) {
        strip_start(s.drop_first())
    } else {
        s
    }
}

/// `s` with its trailing white space removed.
pub open spec fn strip_end(s: Seq<char>) -> Seq<char>
    decreases s.len(),
{
    if s.len() > 0 && is_white(s.last()) {
        strip_end(s.drop_last())
    } else {
        s
    }
}

/// `s` with white space removed at both ends.
pub open spec fn trimmed(s: Seq<char>) -> Seq<char> {
    strip_end(strip_start(s))
}

/// Every character of `s` is white space.
pub open spec fn all_white(s: Seq<char>) -> bool {
    forall|i: int| 0 <= i < s.len() ==> is_white(#[trigger] s[i])
}

/// Relies on `str::trim`, which removes leading and trailing characters that
/// have the Unicode `White_Space` property.
#[verifier::external_body]
pub(crate) fn trim_text(s: &str) -> (r: &str)
    ensures
        r@ == trimmed(s@),
        r@.len() > 0 ==> !is_white(r@[0]) && !is_white(r@.last()),
{
    s.trim()
}

proof fn lemma_strip_start_all_white(s: Seq<char>)
    requires
        all_white(s),
    ensures
        strip_start(s).len() == 0,
    decreases s.len(),
{
    if s.len() > 0 {
        assert(is_white(s[0]));
        let t = s.drop_first();
        assert forall|i: int| 0 <= i < t.len() implies is_white(#[trigger] t[i]) by {
            assert(t[i] == s[i + 1]);
        }
        lemma_strip_start_all_white(t);
    }
}

/// Text made of white space alone trims to nothing.
pub proof fn lemma_all_white_trims_to_empty(s: Seq<char>)
    requires
        all_white(s),
    ensures
        trimmed(s).len() == 0,
{
    lemma_strip_start_all_white(s);
    assert(strip_start(s) =~= Seq::<char>::empty());
}

/// The character of the decimal digit `d`.
pub open spec fn digit_char(d: nat) -> char
    recommends
        d < 10,
{
    seq!['0', '1', '2', '3', '4', '5', '6', '7', '8', '9'][d as int]
}

/// `n` written in decimal, without leading zeros.
pub open spec fn decimal(n: nat) -> Seq<char>
    decreases n,
{
    if n < 10 {
        seq![digit_char(n)]
    } else {
        decimal(n / 10).push(digit_char(n % 10))
    }
}

/// Relies on `usize`'s `Display`, through `to_string`: the number in
/// decimal, without sign or leading zeros.
#[verifier::external_body]
fn decimal_text(n: usize) -> (r: String)
    ensures
        r@ == decimal(n as nat),
{
    n.to_string()
}

/// The footer line for `total` tasks of which `completed` are done.
pub open spec fn footer_line(total: nat, completed: nat) -> Seq<char> {
    "Total tasks: "@ + decimal(total) + " | Completed: "@ + decimal(completed)
}

/// Writes the footer line for `total` tasks of which `completed` are done.
pub fn footer_text(total: usize, completed: usize) -> (r: String)
    ensures
        r@ == footer_line(total as nat, completed as nat),
{
    let mut r = "Total tasks: ".to_owned();
    let t = decimal_text(total);
    r.append(t.as_str());
    r.append(" | Completed: ");
    let c = decimal_text(completed);
    r.append(c.as_str());
    r
}

} // verus!

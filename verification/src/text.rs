//! Small text helpers shared by the codec and the session layer:
//! string equality with an exact specification, and the decimal
//! rendering of a connection id used by the greeting reply.

use vstd::prelude::*;

verus! {

/// String equality over the character views.
pub fn str_eq(a: &str, b: &str) -> (r: bool)
    ensures
        r == (a@ == b@),
{
    let sa: String = a.to_owned();
    let sb: String = b.to_owned();
    sa == sb
}

/// The character for one decimal digit.
pub open spec fn digit_char(d: int) -> char
    recommends
        0 <= d < 10,
{
    ((d + 48) as u8) as char
}

/// The decimal digit string of a non-negative integer.
pub open spec fn dec_rep(n: nat) -> Seq<char>
    decreases n,
{
    if n < 10 {
        seq![digit_char(n as int)]
    } else {
        dec_rep(n / 10).push(digit_char((n % 10) as int))
    }
}

/// Relies on `i32::to_string` (std's `Display` for integers): a
/// non-negative value renders as its plain decimal digits.
#[verifier::external_body]
pub fn i32_to_dec(n: i32) -> (r: String)
    requires
        n >= 0,
    ensures
        r@ == dec_rep(n as nat),
{
    n.to_string()
}

/// Every character of a decimal rendering is a digit.
pub proof fn lemma_dec_rep_digits(n: nat)
    ensures
        forall|i: int|
            0 <= i < dec_rep(n).len() ==> 48 <= #[trigger] dec_rep(n)[i] as u32 <= 57,
    decreases n,
{
    if n < 10 {
        assert(dec_rep(n)[0] == digit_char(n as int));
    } else {
        lemma_dec_rep_digits(n / 10);
        assert forall|i: int| 0 <= i < dec_rep(n).len() implies 48 <= #[trigger] dec_rep(
            n,
        )[i] as u32 <= 57 by {
            if i < dec_rep(n / 10).len() {
                assert(dec_rep(n)[i] == dec_rep(n / 10)[i]);
            } else {
                assert(dec_rep(n)[i] == digit_char((n % 10) as int));
            }
        }
    }
}

} // verus!

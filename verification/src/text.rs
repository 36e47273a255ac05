//! Numbers, durations and names as text.

use std::sync::Arc;
use std::time::Duration;

use vstd::prelude::*;
use vstd::string::StringExecFns;

verus! {

/// `Arc<str>` from a string slice: the name that was given, character by character.
pub assume_specification<'a>[ <Arc<str> as From<&'a str>>::from ](s: &str) -> (name: Arc<str>)
    ensures
        (*name)@ == s@,
;

/// `Arc<str>` from a string: the name that was given, character by character.
pub assume_specification[ <Arc<str> as From<String>>::from ](s: String) -> (name: Arc<str>)
    ensures
        (*name)@ == s@,
;

/// The conversion of a type into itself, which is how a name that is an
/// `Arc<str>` already is taken: it gives the argument back unchanged.
pub assume_specification<V>[ <V as std::convert::From<V>>::from ](value: V) -> (same: V)
    ensures
        same == value,
;

/// The digit `d` as a character.
pub open spec fn digit(d: nat) -> char {
    (48 + d) as char
}

/// The decimal digits of `n`, without leading zeros.
pub open spec fn decimal(n: nat) -> Seq<char>
    decreases n,
{
    if n < 10 {
        seq![digit(n)]
    } else {
        decimal(n / 10).push(digit(n % 10))
    }
}

/// What `{:?}` renders of a duration.
pub uninterp spec fn duration_text(duration: Duration) -> Seq<char>;

/// Calls the `Debug` impl of `Duration`. The text depends on the duration alone.
#[verifier::external_body]
pub(crate) fn duration_debug(duration: &Duration) -> (text: String)
    ensures
        text@ == duration_text(*duration),
{
    format!("{duration:?}")
}

fn digit_str(d: usize) -> (text: &'static str)
    requires
        d < 10,
    ensures
        text@ == seq![digit(d as nat)],
{
    proof {
        reveal_strlit("0");
        reveal_strlit("1");
        reveal_strlit("2");
        reveal_strlit("3");
        reveal_strlit("4");
        reveal_strlit("5");
        reveal_strlit("6");
        reveal_strlit("7");
        reveal_strlit("8");
        reveal_strlit("9");
    }
    let text = match d {
        0 => "0",
        1 => "1",
        2 => "2",
        3 => "3",
        4 => "4",
        5 => "5",
        6 => "6",
        7 => "7",
        8 => "8",
        _ => "9",
    };
    assert(text@ =~= seq![digit(d as nat)]);
    text
}

/// A number in decimal.
pub fn number(n: usize) -> (text: String)
    ensures
        text@ == decimal(n as nat),
    decreases n,
{
    if n < 10 {
        digit_str(n).to_owned()
    } else {
        number(n / 10).concat(digit_str(n % 10))
    }
}

/// A number reads back from its decimal text: the last digit is the remainder
/// by ten, what stands before it is the text of the quotient, a number below
/// ten has one digit, and only zero begins with a zero.
pub proof fn law_decimal_reads_back(n: nat)
    ensures
        decimal(n).len() > 0,
        decimal(n).last() as int == '0' as int + n % 10,
        n < 10 <==> decimal(n).len() == 1,
        n >= 10 ==> decimal(n).drop_last() == decimal(n / 10),
        decimal(n)[0] == '0' <==> n == 0,
    decreases n,
{
    if n >= 10 {
        law_decimal_reads_back(n / 10);
        assert(decimal(n).drop_last() =~= decimal(n / 10));
        assert(decimal(n)[0] == decimal(n / 10)[0]);
    }
}

} // verus!

//! Small text-building helpers shared by the command builders and the
//! status rendering: joining a list of names with a separator and printing
//! unsigned numbers in decimal.

use vstd::prelude::*;
use vstd::string::StringExecFns;

verus! {

/// The items joined with `sep` between consecutive items.
pub open spec fn spec_join(items: Seq<Seq<char>>, sep: Seq<char>) -> Seq<char>
    decreases items.len(),
{
    if items.len() == 0 {
        Seq::empty()
    } else if items.len() == 1 {
        items[0]
    } else {
        items[0] + sep + spec_join(items.skip(1), sep)
    }
}

/// Joins the items starting at position `i`.
fn join_from(items: &Vec<String>, i: usize, sep: &str) -> (r: String)
    requires
        i <= items@.len(),
    ensures
        r@ == spec_join(items.deep_view().skip(i as int), sep@),
    decreases items@.len() - i,
{
    let n = items.len();
    if i >= n {
        proof {
            assert(items.deep_view().skip(i as int) =~= Seq::<Seq<char>>::empty());
        }
        String::new()
    } else if i == n - 1 {
        proof {
            assert(items.deep_view().skip(i as int).len() == 1);
            assert(items.deep_view().skip(i as int)[0] == items@[i as int]@);
        }
        items[i].clone()
    } else {
        let rest = join_from(items, i + 1, sep);
        let r = items[i].clone().concat(sep).concat(rest.as_str());
        proof {
            let d = items.deep_view();
            assert(d.skip(i as int)[0] == items@[i as int]@);
            assert(d.skip(i as int).skip(1) =~= d.skip(i as int + 1));
            assert(r@ =~= spec_join(d.skip(i as int), sep@));
        }
        r
    }
}

/// Joins all the items with `sep` between consecutive items.
pub fn join_with(items: &Vec<String>, sep: &str) -> (r: String)
    ensures
        r@ == spec_join(items.deep_view(), sep@),
{
    let r = join_from(items, 0, sep);
    proof {
        assert(items.deep_view().skip(0) =~= items.deep_view());
    }
    r
}

/// Relies on String::from_utf8: it succeeds exactly on valid UTF-8 input
/// and the returned string decodes those very bytes.
#[verifier::external_body]
pub fn string_from_utf8(bytes: Vec<u8>) -> (r: Option<String>)
    ensures
        r is Some <==> vstd::utf8::valid_utf8(bytes@),
        r matches Some(s) ==> s@ == vstd::utf8::decode_utf8(bytes@),
{
    String::from_utf8(bytes).ok()
}

/// The decimal digit character for a value below ten.
pub open spec fn spec_digit(d: int) -> char {
    if d == 0 {
        '0'
    } else if d == 1 {
        '1'
    } else if d == 2 {
        '2'
    } else if d == 3 {
        '3'
    } else if d == 4 {
        '4'
    } else if d == 5 {
        '5'
    } else if d == 6 {
        '6'
    } else if d == 7 {
        '7'
    } else if d == 8 {
        '8'
    } else {
        '9'
    }
}

/// The decimal digit string of `n`, most significant digit first, without
/// leading zeros (`0` itself prints as "0").
pub open spec fn spec_decimal(n: int) -> Seq<char>
    decreases n,
{
    if n <= 9 {
        seq![spec_digit(n)]
    } else {
        spec_decimal(n / 10).push(spec_digit(n % 10))
    }
}

/// The one-character string for a decimal digit.
fn digit_str(d: u64) -> (r: &'static str)
    requires
        d < 10,
    ensures
        r@ == seq![spec_digit(d as int)],
{
    proof {
        reveal_strlit("0");
        reveal_strlit("1");
        reveal_strlit("2");
        reveal_strlit("3");
        reveal_strlit("4");
        reveal_strlit("5");
        reveal_strlit("6");
        reveal_strlit("7");
        reveal_strlit("8");
        reveal_strlit("9");
    }
    if d == 0 {
        "0"
    } else if d == 1 {
        "1"
    } else if d == 2 {
        "2"
    } else if d == 3 {
        "3"
    } else if d == 4 {
        "4"
    } else if d == 5 {
        "5"
    } else if d == 6 {
        "6"
    } else if d == 7 {
        "7"
    } else if d == 8 {
        "8"
    } else {
        "9"
    }
}

/// Prints `n` in decimal.
pub fn decimal_string(n: u64) -> (r: String)
    ensures
        r@ == spec_decimal(n as int),
    decreases n,
{
    if n <= 9 {
        String::from_str(digit_str(n))
    } else {
        let high = decimal_string(n / 10);
        let r = high.concat(digit_str(n % 10));
        proof {
            assert(r@ =~= spec_decimal(n as int));
        }
        r
    }
}

} // verus!

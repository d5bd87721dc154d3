//! Texts and bytes: comparison, and the numbers that messages carry.

use vstd::prelude::*;
use vstd::string::*;
use vstd::utf8::*;

verus! {

/// Whether two byte strings are equal.
pub fn same_bytes(left: &[u8], right: &[u8]) -> (same: bool)
    ensures
        same == (left@ == right@),
{
    if left.len() != right.len() {
        return false;
    }
    let mut i: usize = 0;
    while i < left.len()
        invariant
            left@.len() == right@.len(),
            i <= left@.len(),
            forall|j: int| 0 <= j < i ==> left@[j] == right@[j],
        decreases left@.len() - i,
    {
        if left[i] != right[i] {
            return false;
        }
        i += 1;
    }
    assert(left@ =~= right@);
    true
}

/// Whether two texts are equal.
pub fn same_text(left: &str, right: &str) -> (same: bool)
    ensures
        same == (left@ == right@),
{
    proof {
        encode_utf8_decode_utf8(left@);
        encode_utf8_decode_utf8(right@);
    }
    same_bytes(left.as_bytes(), right.as_bytes())
}

/// Whether a header value is exactly the given text.
pub fn header_is(value: &Option<Vec<u8>>, text: &str) -> (same: bool)
    ensures
        same == header_equals(bytes_of(*value), text@),
        same <==> value is Some && value->0@ == encode_utf8(text@),
{
    match value {
        Some(bytes) => same_bytes(bytes.as_slice(), text.as_bytes()),
        None => false,
    }
}

/// The bytes of a header value, where the header is there.
pub open spec fn bytes_of(value: Option<Vec<u8>>) -> Option<Seq<u8>> {
    match value {
        Some(bytes) => Some(bytes@),
        None => None,
    }
}

/// A header that is there and holds the bytes of `text`.
pub open spec fn header_equals(value: Option<Seq<u8>>, text: Seq<char>) -> bool {
    value == Some(encode_utf8(text))
}

/// The control characters of Unicode: C0, delete, and C1.
pub open spec fn is_control_char(c: char) -> bool {
    c <= '\u{1f}' || '\u{7f}' <= c <= '\u{9f}'
}

/// Whether `c` is a control character.
pub fn is_control(c: char) -> (control: bool)
    ensures
        control == is_control_char(c),
        control <==> (c as u32) <= 31 || 127 <= (c as u32) <= 159,
{
    c <= '\u{1f}' || ('\u{7f}' <= c && c <= '\u{9f}')
}

/// The decimal digit of a number below ten.
pub open spec fn digit(d: nat) -> char {
    (48 + d) as char
}

/// A number written in decimal, without leading zeros.
pub open spec fn decimal_text(n: nat) -> Seq<char>
    decreases n,
{
    if n < 10 {
        seq![digit(n)]
    } else {
        decimal_text(n / 10).push(digit(n % 10))
    }
}

fn digit_text(d: u64) -> (text: &'static str)
    requires
        d < 10,
    ensures
        text@ == seq![digit(d as nat)],
{
    proof {
        reveal_strlit("0");
        reveal_strlit("1");
        reveal_strlit("2");
        reveal_strlit("3");
        reveal_strlit("4");
        reveal_strlit("5");
        reveal_strlit("6");
        reveal_strlit("7");
        reveal_strlit("8");
        reveal_strlit("9");
    }
    match d {
        0 => "0",
        1 => "1",
        2 => "2",
        3 => "3",
        4 => "4",
        5 => "5",
        6 => "6",
        7 => "7",
        8 => "8",
        _ => "9",
    }
}

/// Writes a number in decimal.
pub fn decimal(n: u64) -> (text: String)
    ensures
        text@ == decimal_text(n as nat),
    decreases n,
{
    if n < 10 {
        digit_text(n).to_string()
    } else {
        let mut text = decimal(n / 10);
        text.append(digit_text(n % 10));
        assert(text@ =~= decimal_text(n as nat));
        text
    }
}

proof fn decimals_hold_digits(n: nat)
    ensures
        decimal_text(n).len() >= 1,
        n >= 10 ==> decimal_text(n).len() >= 2,
        forall|i: int| 0 <= i < decimal_text(n).len() ==> '0' <= #[trigger] decimal_text(n)[i] <= '9',
    decreases n,
{
    if n >= 10 {
        decimals_hold_digits(n / 10);
    }
}

proof fn equal_decimals(m: nat, n: nat)
    requires
        decimal_text(m) == decimal_text(n),
    ensures
        m == n,
    decreases m,
{
    decimals_hold_digits(m);
    decimals_hold_digits(n);
    let text = decimal_text(m);
    if m < 10 || n < 10 {
        assert(decimal_text(m)[0] == decimal_text(n)[0]);
    } else {
        assert(text.drop_last() =~= decimal_text(m / 10));
        assert(text.drop_last() =~= decimal_text(n / 10));
        equal_decimals(m / 10, n / 10);
        assert(text.last() == digit(m % 10) && text.last() == digit(n % 10));
    }
}

/// A number in decimal can be told from what follows it, where that begins with
/// a comma.
pub proof fn decimals_are_told_apart(m: nat, n: nat, after_m: Seq<char>, after_n: Seq<char>)
    requires
        decimal_text(m) + after_m == decimal_text(n) + after_n,
        after_m.len() > 0 && after_m[0] == ',',
        after_n.len() > 0 && after_n[0] == ',',
    ensures
        m == n,
        after_m == after_n,
{
    decimals_hold_digits(m);
    decimals_hold_digits(n);
    let whole = decimal_text(m) + after_m;
    let one = decimal_text(m).len() as int;
    let other = decimal_text(n).len() as int;
    assert(whole[one] == ',' && whole[other] == ',');
    if one < other {
        assert(whole[one] == decimal_text(n)[one]);
    }
    if other < one {
        assert(whole[other] == decimal_text(m)[other]);
    }
    assert(whole.take(one) =~= decimal_text(m));
    assert(whole.take(other) =~= decimal_text(n));
    assert(whole.skip(one) =~= after_m);
    assert(whole.skip(other) =~= after_n);
    equal_decimals(m, n);
}

/// Two texts, one after the other.
pub fn join(first: &str, second: &str) -> (text: String)
    ensures
        text@ == first@ + second@,
{
    let mut text = first.to_string();
    text.append(second);
    text
}

/// The number that a text of decimal digits stands for.
pub open spec fn decimal_value(text: Seq<char>) -> nat
    decreases text.len(),
{
    if text.len() == 0 {
        0
    } else {
        (10 * decimal_value(text.drop_last()) + (text.last() as int - 48)) as nat
    }
}

/// A number in decimal stands for that number, holds nothing but digits, and
/// begins with a zero only where it is zero.
pub proof fn decimals_stand_for_their_number(n: nat)
    ensures
        decimal_value(decimal_text(n)) == n,
        decimal_text(n).len() >= 1,
        forall|i: int| 0 <= i < decimal_text(n).len() ==> 48 <= #[trigger] decimal_text(n)[i] as int <= 57,
        decimal_text(n)[0] as int == 48 ==> n == 0,
    decreases n,
{
    if n < 10 {
        assert(decimal_text(n).drop_last() =~= Seq::<char>::empty());
        assert(decimal_text(n).last() == digit(n));
        assert(decimal_value(Seq::<char>::empty()) == 0);
    } else {
        decimals_stand_for_their_number(n / 10);
        assert(decimal_text(n).drop_last() =~= decimal_text(n / 10));
        assert(decimal_text(n).last() == digit(n % 10));
        assert(decimal_text(n)[0] == decimal_text(n / 10)[0]);
    }
}

/// A header matches a text exactly where it is there and holds the text's bytes.
pub proof fn headers_match_by_their_bytes(value: Option<Vec<u8>>, text: Seq<char>)
    ensures
        header_equals(bytes_of(value), text) <==> value is Some && value->0@ == encode_utf8(text),
        bytes_of(value) is Some <==> value is Some,
        value is Some ==> bytes_of(value)->0 == value->0@,
{
}

/// The control characters are those of the numbers 0 to 31 and 127 to 159.
pub proof fn control_characters_have_these_numbers(c: char)
    ensures
        is_control_char(c) <==> (c as u32) <= 31 || 127 <= (c as u32) <= 159,
{
}

} // verus!

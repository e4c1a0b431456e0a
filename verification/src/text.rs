//! Decimal rendering of integers and the string primitives it rests on.

use crate::rounding::magnitude;
use vstd::prelude::*;
use vstd::string::*;

verus! {

/// `String::push` of the standard library: the string afterwards is the
/// string before with `ch` appended. Assumed, not proved.
pub assume_specification[ String::push ](text: &mut String, ch: char)
    ensures
        final(text)@ == old(text)@.push(ch),
;

/// The character of the decimal digit `d`.
pub open spec fn digit_char(d: int) -> char
    recommends
        0 <= d <= 9,
{
    ('0' as int + d) as char
}

/// The decimal numeral of `n`, without leading zeros.
pub open spec fn decimal(n: nat) -> Seq<char>
    decreases n,
{
    if n < 10 {
        seq![digit_char(n as int)]
    } else {
        decimal(n / 10).push(digit_char((n % 10) as int))
    }
}

/// `count` zeros.
pub open spec fn zeros(count: nat) -> Seq<char> {
    Seq::new(count, |i: int| '0')
}

/// The numeral of `n` filled with zeros to at least `width` characters, a
/// minus sign, where there is one, standing first and counting towards the
/// width.
pub open spec fn zero_padded(n: int, width: nat) -> Seq<char> {
    let sign = if n < 0 {
        seq!['-']
    } else {
        Seq::<char>::empty()
    };
    let body = decimal(magnitude(n));
    let fill = if sign.len() + body.len() < width {
        (width - sign.len() - body.len()) as nat
    } else {
        0
    };
    sign + zeros(fill) + body
}

/// A numeral has as many digits as `n` has decimal places, and at most ten
/// where `n` fits in 32 bits.
pub proof fn lemma_decimal_len(n: nat)
    ensures
        decimal(n).len() >= 1,
        n < 10 <==> decimal(n).len() == 1,
        n >= 10 ==> decimal(n).len() == decimal(n / 10).len() + 1,
        n <= u32::MAX ==> decimal(n).len() <= 10,
    decreases n,
{
    if n >= 10 {
        lemma_decimal_len(n / 10);
        if n <= u32::MAX {
            reveal_with_fuel(decimal, 11);
        }
    }
}

/// The character of the digit `d`.
fn digit(d: u32) -> (ch: char)
    requires
        d <= 9,
    ensures
        ch == digit_char(d as int),
{
    ('0' as u8 + d as u8) as char
}

/// Appends the numeral of `n`.
pub fn push_decimal(text: &mut String, n: u32)
    ensures
        final(text)@ == old(text)@ + decimal(n as nat),
    decreases n,
{
    if n >= 10 {
        push_decimal(text, n / 10);
    }
    text.push(digit(n % 10));
}

/// The number of digits in the numeral of `n`.
pub fn decimal_len(n: u32) -> (len: usize)
    ensures
        len == decimal(n as nat).len(),
        1 <= len <= 10,
    decreases n,
{
    proof {
        lemma_decimal_len(n as nat);
    }
    if n >= 10 {
        1 + decimal_len(n / 10)
    } else {
        1
    }
}

/// Appends `n` as `zero_padded` writes it.
pub fn push_zero_padded(text: &mut String, n: i32, width: usize)
    ensures
        final(text)@ == old(text)@ + zero_padded(n as int, width as nat),
{
    let size: u32 = if n < 0 { (-(n as i64)) as u32 } else { n as u32 };
    let mut used: usize = decimal_len(size);
    if n < 0 {
        text.push('-');
        used = used + 1;
    }
    let fill: usize = if used < width { width - used } else { 0 };
    let ghost start = text@;
    let mut done: usize = 0;
    while done < fill
        invariant
            done <= fill,
            text@ == start + zeros(done as nat),
        decreases fill - done,
    {
        text.push('0');
        done = done + 1;
    }
    push_decimal(text, size);
    assert(text@ == old(text)@ + zero_padded(n as int, width as nat));
}

/// Whether `ch` is a decimal digit.
pub open spec fn is_digit(ch: char) -> bool {
    '0' <= ch <= '9'
}

/// Every character of a numeral is a digit.
pub proof fn lemma_decimal_digits(n: nat)
    ensures
        forall|i: int| 0 <= i < decimal(n).len() ==> is_digit(#[trigger] decimal(n)[i]),
    decreases n,
{
    if n >= 10 {
        lemma_decimal_digits(n / 10);
    }
    assert forall|i: int| 0 <= i < decimal(n).len() implies is_digit(
        #[trigger] decimal(n)[i],
    ) by {
        if n >= 10 && i < decimal(n / 10).len() {
            assert(decimal(n)[i] == decimal(n / 10)[i]);
        } else {
            let d = (n % 10) as int;
            assert(decimal(n)[i] == digit_char(d));
            assert(is_digit(digit_char(d)));
        }
    }
}

/// A padded numeral is at least `width` characters long and not empty, ends
/// in a digit, and holds digits only, but for a minus sign in front of a
/// negative number.
pub proof fn lemma_zero_padded_shape(n: int, width: nat)
    ensures
        zero_padded(n, width).len() >= width,
        zero_padded(n, width).len() >= 1,
        is_digit(zero_padded(n, width).last()),
        forall|i: int|
            0 <= i < zero_padded(n, width).len() ==> is_digit(#[trigger] zero_padded(n, width)[i])
                || (i == 0 && n < 0 && zero_padded(n, width)[i] == '-'),
{
    lemma_decimal_len(magnitude(n));
    lemma_decimal_digits(magnitude(n));
}

/// A padded numeral ends in the last digit of the number.
pub proof fn lemma_zero_padded_last(n: int, width: nat)
    ensures
        zero_padded(n, width).len() >= 1,
        zero_padded(n, width).last() == digit_char((magnitude(n) % 10) as int),
{
    lemma_decimal_len(magnitude(n));
}

/// A character occurs in two texts in a row exactly when it occurs in one
/// of them.
pub proof fn lemma_contains_in_concatenation(front: Seq<char>, back: Seq<char>, wanted: char)
    ensures
        (front + back).contains(wanted) <==> front.contains(wanted) || back.contains(wanted),
{
    let whole = front + back;
    if whole.contains(wanted) {
        let at = choose|i: int| 0 <= i < whole.len() && whole[i] == wanted;
        if at < front.len() {
            assert(front[at] == wanted);
        } else {
            assert(back[at - front.len()] == wanted);
        }
    }
    if front.contains(wanted) {
        let at = choose|i: int| 0 <= i < front.len() && front[i] == wanted;
        assert(whole[at] == wanted);
    }
    if back.contains(wanted) {
        let at = choose|i: int| 0 <= i < back.len() && back[i] == wanted;
        assert(whole[front.len() + at] == wanted);
    }
}

/// A padded numeral holds no character but digits and the minus sign.
pub proof fn lemma_zero_padded_lacks(n: int, width: nat, wanted: char)
    requires
        !is_digit(wanted),
        wanted != '-',
    ensures
        !zero_padded(n, width).contains(wanted),
{
    lemma_zero_padded_shape(n, width);
}

/// `text` without the spaces at its two ends.
pub open spec fn trimmed(text: Seq<char>) -> Seq<char>
    decreases text.len(),
{
    if text.len() > 0 && text.first() == ' ' {
        trimmed(text.drop_first())
    } else if text.len() > 0 && text.last() == ' ' {
        trimmed(text.drop_last())
    } else {
        text
    }
}

/// Whether `wanted` occurs in `text`.
pub fn contains_char(text: &str, wanted: char) -> (found: bool)
    ensures
        found == text@.contains(wanted),
{
    let mut found = false;
    for ch in it: text.chars()
        invariant
            it.seq() == text@,
            found == it.seq().take(it.index() as int).contains(wanted),
    {
        proof {
            let seen = it.seq().take(it.index() as int);
            let next = it.seq().take(it.index() as int + 1);
            assert(next =~= seen.push(ch));
            if seen.contains(wanted) {
                let at = choose|i: int| 0 <= i < seen.len() && seen[i] == wanted;
                assert(next[at] == wanted);
            }
            if ch == wanted {
                assert(next[it.index() as int] == wanted);
            }
        }
        if ch == wanted {
            found = true;
        }
    }
    assert(text@.take(text@.len() as int) =~= text@);
    found
}

/// Whether two texts are the same.
pub fn same_text(left: &str, right: &str) -> (same: bool)
    ensures
        same == (left@ == right@),
{
    let left_chars = chars_of(left);
    let right_chars = chars_of(right);
    if left_chars.len() != right_chars.len() {
        return false;
    }
    let mut at: usize = 0;
    while at < left_chars.len()
        invariant
            at <= left_chars.len(),
            left_chars.len() == right_chars.len(),
            left_chars@ == left@,
            right_chars@ == right@,
            forall|i: int| 0 <= i < at ==> left@[i] == right@[i],
        decreases left_chars.len() - at,
    {
        if left_chars[at] != right_chars[at] {
            return false;
        }
        at = at + 1;
    }
    assert(left@ =~= right@);
    true
}

/// The characters of `text`.
pub fn chars_of(text: &str) -> (chars: Vec<char>)
    ensures
        chars@ == text@,
{
    let mut chars: Vec<char> = Vec::new();
    for ch in it: text.chars()
        invariant
            it.seq() == text@,
            chars@ == it.seq().take(it.index() as int),
    {
        chars.push(ch);
    }
    chars
}

/// The text that `chars` spell.
pub fn text_of(chars: &[char]) -> (text: String)
    ensures
        text@ == chars@,
{
    let mut text = String::new();
    let mut at: usize = 0;
    while at < chars.len()
        invariant
            at <= chars.len(),
            text@ == chars@.take(at as int),
        decreases chars.len() - at,
    {
        text.push(chars[at]);
        at = at + 1;
    }
    text
}

} // verus!

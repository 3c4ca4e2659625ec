//! Numbers as text.
use vstd::prelude::*;

use crate::text::chars_of;

verus! {

/// The digit for a number below sixteen.
pub open spec fn digit(d: nat) -> char {
    if d < 10 {
        (('0' as u32) + d) as char
    } else {
        (('a' as u32) + d - 10) as char
    }
}

/// A number written in a base of at most sixteen, without leading zeros.
pub open spec fn digits(n: nat, base: nat) -> Seq<char>
    decreases n,
{
    if base < 2 || n < base {
        seq![digit(n)]
    } else {
        proof {
            assert(n / base < n) by (nonlinear_arith)
                requires
                    n >= base >= 2,
            ;
        }
        digits(n / base, base).push(digit(n % base))
    }
}

/// A number in decimal.
pub open spec fn decimal(n: nat) -> Seq<char> {
    digits(n, 10)
}

/// A number in lower-case hexadecimal.
pub open spec fn hexadecimal(n: nat) -> Seq<char> {
    digits(n, 16)
}

/// Every character is a decimal digit.
pub open spec fn all_digits(text: Seq<char>) -> bool {
    forall|i: int| 0 <= i < text.len() ==> '0' <= #[trigger] text[i] <= '9'
}

/// The number that decimal digits stand for.
pub open spec fn digits_value(text: Seq<char>) -> nat
    decreases text.len(),
{
    if text.len() == 0 {
        0
    } else {
        (digits_value(text.drop_last()) * 10 + (text.last() as u32 - '0' as u32)) as nat
    }
}

/// The number that a text stands for: one or more decimal digits, behind at most one plus sign.
pub open spec fn number_in(text: Seq<char>) -> Option<nat> {
    let body = if text.len() > 0 && text[0] == '+' {
        text.skip(1)
    } else {
        text
    };
    if body.len() > 0 && all_digits(body) {
        Some(digits_value(body))
    } else {
        None
    }
}

/// The digit for a number below sixteen.
fn digit_char(d: u64) -> (c: char)
    requires
        d < 16,
    ensures
        c == digit(d as nat),
{
    match d {
        0 => '0',
        1 => '1',
        2 => '2',
        3 => '3',
        4 => '4',
        5 => '5',
        6 => '6',
        7 => '7',
        8 => '8',
        9 => '9',
        10 => 'a',
        11 => 'b',
        12 => 'c',
        13 => 'd',
        14 => 'e',
        _ => 'f',
    }
}

/// Appends a number written in the given base.
fn push_digits(text: &mut String, n: u64, base: u64)
    requires
        2 <= base <= 16,
    ensures
        final(text)@ == old(text)@ + digits(n as nat, base as nat),
    decreases n,
{
    if n < base {
        text.push(digit_char(n));
        assert(text@ =~= old(text)@ + digits(n as nat, base as nat));
    } else {
        assert(n / base < n) by (nonlinear_arith)
            requires
                n >= base >= 2,
        ;
        push_digits(text, n / base, base);
        text.push(digit_char(n % base));
        assert(text@ =~= old(text)@ + digits(n as nat, base as nat));
    }
}

/// A number in decimal.
pub fn decimal_text(n: u64) -> (text: String)
    ensures
        text@ == decimal(n as nat),
{
    let mut text = String::new();
    push_digits(&mut text, n, 10);
    assert(text@ =~= decimal(n as nat));
    text
}

/// A number in lower-case hexadecimal.
pub fn hexadecimal_text(n: u64) -> (text: String)
    ensures
        text@ == hexadecimal(n as nat),
{
    let mut text = String::new();
    push_digits(&mut text, n, 16);
    assert(text@ =~= hexadecimal(n as nat));
    text
}

/// More digits make no smaller number.
proof fn lemma_value_grows(text: Seq<char>, i: int)
    requires
        0 <= i <= text.len(),
        all_digits(text),
    ensures
        digits_value(text.take(i)) <= digits_value(text),
    decreases text.len(),
{
    if i < text.len() {
        assert(all_digits(text.drop_last()));
        lemma_value_grows(text.drop_last(), i);
        assert(text.drop_last().take(i) =~= text.take(i));
    } else {
        assert(text.take(i) =~= text);
    }
}

/// The number that a text stands for, where it fits.
pub fn parse_number(text: &str) -> (number: Option<u64>)
    ensures
        match number {
            Some(n) => number_in(text@) == Some(n as nat),
            None => number_in(text@) is None || number_in(text@)->0 > u64::MAX,
        },
{
    let chars = chars_of(text);
    let start: usize = if chars.len() > 0 && chars[0] == '+' {
        1
    } else {
        0
    };
    let ghost body = chars@.skip(start as int);
    assert(body =~= if text@.len() > 0 && text@[0] == '+' {
        text@.skip(1)
    } else {
        text@
    });
    if start == chars.len() {
        return None;
    }
    let mut value: u64 = 0;
    let mut fits = true;
    let mut i: usize = start;
    while i < chars.len()
        invariant
            start <= i <= chars@.len(),
            body == chars@.skip(start as int),
            all_digits(body.take(i - start)),
            fits ==> value == digits_value(body.take(i - start)),
            !fits ==> exists|k: int|
                0 <= k <= body.len() && digits_value(#[trigger] body.take(k)) > u64::MAX,
            body.len() > 0,
            number_in(text@) == if all_digits(body) {
                Some(digits_value(body))
            } else {
                None::<nat>
            },
        decreases chars@.len() - i,
    {
        let c = chars[i];
        if !('0' <= c && c <= '9') {
            assert(body[i - start] == c);
            return None;
        }
        let ghost grown = body.take(i - start + 1);
        assert(grown.drop_last() =~= body.take(i - start));
        assert(grown.last() == c);
        assert(all_digits(grown)) by {
            assert forall|j: int| 0 <= j < grown.len() implies '0' <= #[trigger] grown[j]
                <= '9' by {
                if j < i - start {
                    assert(body.take(i - start)[j] == grown[j]);
                }
            }
        }
        let d: u64 = (c as u32 - '0' as u32) as u64;
        if fits {
            if value > (u64::MAX - d) / 10 {
                assert(digits_value(grown) > u64::MAX);
                assert(body.take(i - start + 1) == grown);
                fits = false;
            } else {
                value = value * 10 + d;
            }
        }
        i += 1;
    }
    assert(body.take(i - start) =~= body);
    if fits {
        Some(value)
    } else {
        proof {
            let k = choose|k: int|
                0 <= k <= body.len() && digits_value(#[trigger] body.take(k)) > u64::MAX;
            lemma_value_grows(body, k);
        }
        None
    }
}

/// A number that is written in decimal reads as itself, and so it does behind a plus sign.
pub proof fn law_written_numbers_read_back(n: nat)
    ensures
        number_in(decimal(n)) == Some(n),
        number_in(seq!['+'] + decimal(n)) == Some(n),
{
    lemma_written(n);
    let signed = seq!['+'] + decimal(n);
    assert(signed.skip(1) =~= decimal(n));
}

/// A number written in decimal is digits that stand for it.
proof fn lemma_written(n: nat)
    ensures
        decimal(n).len() > 0,
        all_digits(decimal(n)),
        digits_value(decimal(n)) == n,
    decreases n,
{
    let text = decimal(n);
    if n < 10 {
        assert(text.drop_last() =~= Seq::empty());
        assert(digits_value(text.drop_last()) == 0);
    } else {
        lemma_written(n / 10);
        assert(text.drop_last() =~= decimal(n / 10));
        assert forall|i: int| 0 <= i < text.len() implies '0' <= #[trigger] text[i] <= '9' by {
            if i < text.len() - 1 {
                assert(text[i] == decimal(n / 10)[i]);
            }
        }
    }
}

/// Different numbers are written differently, in decimal as in hexadecimal.
pub proof fn law_different_numbers_differ(n: nat, m: nat, base: nat)
    requires
        base == 10 || base == 16,
        digits(n, base) == digits(m, base),
    ensures
        n == m,
    decreases n,
{
    let first = digits(n, base);
    let second = digits(m, base);
    lemma_digits_some(n, base);
    lemma_digits_some(m, base);
    if n < base && m < base {
        assert(first[0] == second[0]);
    } else if n < base {
        lemma_digits_some(m / base, base);
        assert(second.len() >= 2);
    } else if m < base {
        lemma_digits_some(n / base, base);
        assert(first.len() >= 2);
    } else {
        assert(first.drop_last() =~= digits(n / base, base));
        assert(second.drop_last() =~= digits(m / base, base));
        assert(first.last() == digit(n % base));
        assert(second.last() == digit(m % base));
        law_different_numbers_differ(n / base, m / base, base);
    }
}

/// Every number has a digit.
proof fn lemma_digits_some(n: nat, base: nat)
    ensures
        digits(n, base).len() > 0,
{
}

/// A text stands for a number exactly where it is digits, one at least, behind at most one plus sign;
/// each digit counts ten times what stands behind it does, zeros at the start count nothing.
pub proof fn law_digits_stand_for_numbers(text: Seq<char>, c: char)
    requires
        '0' <= c <= '9',
    ensures
        text.len() > 0 && all_digits(text) ==> number_in(text) == Some(digits_value(text)) && number_in(
            seq!['+'] + text,
        ) == Some(digits_value(text)),
        text.len() > 0 && text[0] != '+' && !all_digits(text) ==> number_in(text) is None,
        number_in(Seq::empty()) is None,
        digits_value(text.push(c)) == digits_value(text) * 10 + (c as u32 - '0' as u32),
        digits_value(Seq::empty()) == 0,
        all_digits(text) ==> digits_value(seq!['0'] + text) == digits_value(text),
{
    assert(text.push(c).drop_last() =~= text);
    let signed = seq!['+'] + text;
    assert(signed.skip(1) =~= text);
    if text.len() > 0 && all_digits(text) {
        assert('0' <= text[0] <= '9');
    }
    if all_digits(text) {
        lemma_leading_zero(text);
    }
}

/// A zero at the start counts nothing.
proof fn lemma_leading_zero(text: Seq<char>)
    ensures
        digits_value(seq!['0'] + text) == digits_value(text),
    decreases text.len(),
{
    let longer = seq!['0'] + text;
    if text.len() == 0 {
        assert(longer.drop_last() =~= Seq::empty());
        assert(digits_value(longer.drop_last()) == 0);
    } else {
        lemma_leading_zero(text.drop_last());
        assert(longer.drop_last() =~= seq!['0'] + text.drop_last());
        assert(longer.last() == text.last());
    }
}

} // verus!

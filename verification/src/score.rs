//! The survival score and its five-digit display.

use vstd::prelude::*;
use vstd::string::*;

verus! {

/// Milliseconds of survival that are worth one point.
pub const POINT_MS: u64 = 100;

/// The largest score that is shown; longer runs stay at this value.
pub const SCORE_MAX: u16 = 65535;

/// The score after `elapsed_ms` milliseconds: one point per full tenth of a
/// second, held at `SCORE_MAX`.
pub open spec fn score_of(elapsed_ms: nat) -> nat {
    if elapsed_ms / 100 >= 65535 {
        65535
    } else {
        elapsed_ms / 100
    }
}

/// The decimal digit of `n` that stands at `place` (0 is the units).
pub open spec fn digit_at(n: nat, place: nat) -> nat {
    (n / pow10(place)) % 10
}

/// Ten to the power `e`.
pub open spec fn pow10(e: nat) -> nat
    decreases e,
{
    if e == 0 {
        1
    } else {
        10 * pow10((e - 1) as nat)
    }
}

/// The character that shows the decimal digit `d`.
pub open spec fn digit_char(d: nat) -> char {
    if d == 0 {
        '0'
    } else if d == 1 {
        '1'
    } else if d == 2 {
        '2'
    } else if d == 3 {
        '3'
    } else if d == 4 {
        '4'
    } else if d == 5 {
        '5'
    } else if d == 6 {
        '6'
    } else if d == 7 {
        '7'
    } else if d == 8 {
        '8'
    } else {
        '9'
    }
}

/// The display of `n`: five decimal digits, the most significant first, with
/// leading zeros.
pub open spec fn padded(n: nat) -> Seq<char> {
    seq![
        digit_char(digit_at(n, 4)),
        digit_char(digit_at(n, 3)),
        digit_char(digit_at(n, 2)),
        digit_char(digit_at(n, 1)),
        digit_char(digit_at(n, 0)),
    ]
}

/// The number that a string of decimal digits denotes; a character that is no
/// digit counts as nine.
pub open spec fn digits_value(s: Seq<char>) -> nat
    decreases s.len(),
{
    if s.len() == 0 {
        0
    } else {
        10 * digits_value(s.drop_last()) + char_digit(s.last())
    }
}

/// The digit that a character shows, the inverse of `digit_char`.
pub open spec fn char_digit(c: char) -> nat {
    if c == '0' {
        0
    } else if c == '1' {
        1
    } else if c == '2' {
        2
    } else if c == '3' {
        3
    } else if c == '4' {
        4
    } else if c == '5' {
        5
    } else if c == '6' {
        6
    } else if c == '7' {
        7
    } else if c == '8' {
        8
    } else {
        9
    }
}

/// The score for a run that has lasted `elapsed_ms` milliseconds.
pub fn score_value(elapsed_ms: u64) -> (points: u16)
    ensures
        points as nat == score_of(elapsed_ms as nat),
{
    let tenths: u64 = elapsed_ms / POINT_MS;
    if tenths >= 65535 {
        SCORE_MAX
    } else {
        tenths as u16
    }
}

/// The first five powers of ten.
proof fn lemma_pow10_values()
    ensures
        pow10(0) == 1,
        pow10(1) == 10,
        pow10(2) == 100,
        pow10(3) == 1000,
        pow10(4) == 10000,
{
    reveal_with_fuel(pow10, 5);
}

/// The text of one decimal digit.
fn digit_text(d: u16) -> (text: &'static str)
    requires
        d < 10,
    ensures
        text@ == seq![digit_char(d as nat)],
{
    proof {
        reveal_strlit("0");
        reveal_strlit("1");
        reveal_strlit("2");
        reveal_strlit("3");
        reveal_strlit("4");
        reveal_strlit("5");
        reveal_strlit("6");
        reveal_strlit("7");
        reveal_strlit("8");
        reveal_strlit("9");
    }
    let text: &'static str = if d == 0 {
        "0"
    } else if d == 1 {
        "1"
    } else if d == 2 {
        "2"
    } else if d == 3 {
        "3"
    } else if d == 4 {
        "4"
    } else if d == 5 {
        "5"
    } else if d == 6 {
        "6"
    } else if d == 7 {
        "7"
    } else if d == 8 {
        "8"
    } else {
        "9"
    };
    assert(text@ =~= seq![digit_char(d as nat)]);
    text
}

/// The display of the score `points`: five digits with leading zeros.
pub fn padded_text(points: u16) -> (text: String)
    ensures
        text@ == padded(points as nat),
        text@.len() == 5,
{
    proof {
        lemma_pow10_values();
    }
    let mut text: String = String::new();
    text.append(digit_text(points / 10000 % 10));
    text.append(digit_text(points / 1000 % 10));
    text.append(digit_text(points / 100 % 10));
    text.append(digit_text(points / 10 % 10));
    text.append(digit_text(points % 10));
    proof {
        let n = points as nat;
        assert(text@.len() == 5);
        assert(text@[0] == digit_char(digit_at(n, 4)));
        assert(text@[1] == digit_char(digit_at(n, 3)));
        assert(text@[2] == digit_char(digit_at(n, 2)));
        assert(text@[3] == digit_char(digit_at(n, 1)));
        assert(text@[4] == digit_char(digit_at(n, 0)));
        assert(text@ =~= padded(n));
    }
    text
}

/// The display of the score after `elapsed_ms` milliseconds of survival.
pub fn score_text(elapsed_ms: u64) -> (text: String)
    ensures
        text@ == padded(score_of(elapsed_ms as nat)),
        text@.len() == 5,
{
    padded_text(score_value(elapsed_ms))
}

/// The display denotes the score: read as a decimal number, the five
/// characters shown for a score below 100000 give that score back.
pub proof fn lemma_padded_denotes(n: nat)
    requires
        n < 100_000,
    ensures
        padded(n).len() == 5,
        digits_value(padded(n)) == n,
        forall|i: int| 0 <= i < 5 ==> char_digit(#[trigger] padded(n)[i]) < 10,
{
    lemma_pow10_values();
    let s5 = padded(n);
    let s4 = s5.drop_last();
    let s3 = s4.drop_last();
    let s2 = s3.drop_last();
    let s1 = s2.drop_last();
    let s0 = s1.drop_last();
    assert(s0.len() == 0);
    assert(digits_value(s0) == 0);
    assert(s1.last() == digit_char(digit_at(n, 4)));
    assert(s2.last() == digit_char(digit_at(n, 3)));
    assert(s3.last() == digit_char(digit_at(n, 2)));
    assert(s4.last() == digit_char(digit_at(n, 1)));
    assert(s5.last() == digit_char(digit_at(n, 0)));
    assert(forall|d: nat| d < 10 ==> char_digit(#[trigger] digit_char(d)) == d);
    assert(digits_value(s1) == digit_at(n, 4));
    assert(digits_value(s2) == 10 * digits_value(s1) + digit_at(n, 3));
    assert(digits_value(s3) == 10 * digits_value(s2) + digit_at(n, 2));
    assert(digits_value(s4) == 10 * digits_value(s3) + digit_at(n, 1));
    assert(digits_value(s5) == 10 * digits_value(s4) + digit_at(n, 0));
}

/// The display of every run is that of its score, which never passes
/// `SCORE_MAX` and never falls while the run goes on.
pub proof fn lemma_score_monotone(earlier_ms: nat, later_ms: nat)
    requires
        earlier_ms <= later_ms,
    ensures
        score_of(earlier_ms) <= score_of(later_ms) <= 65535,
        digits_value(padded(score_of(later_ms))) == score_of(later_ms),
{
    lemma_padded_denotes(score_of(later_ms));
}

} // verus!

//! What the user typed at the menu: which of the five choices a line names,
//! and which identifier.

use vstd::prelude::*;
use crate::text::same_text;

verus! {

/// A choice of the menu.
#[derive(Clone, Copy, Debug, PartialEq, Eq, Structural)]
pub enum Choice {
    Add,
    List,
    Complete,
    Delete,
    SaveAndExit,
}

/// The text left when the white space at both ends of a line is taken off,
/// as `str::trim` does it.
pub uninterp spec fn trimmed(line: Seq<char>) -> Seq<char>;

/// Calls `str::trim`, which returns the part of the line between its leading
/// and its trailing white space.
///
/// Not proved: that the call gives the same answer for the same line. That
/// answer is all the contract speaks of.
#[verifier::external_body]
fn trim(line: &str) -> (inner: &str)
    ensures
        inner@ == trimmed(line@),
{
    line.trim()
}

/// Whether a character is one of the digits `0` to `9`.
pub open spec fn is_digit(c: char) -> bool {
    '0' <= c <= '9'
}

/// The number that a sequence of digits writes in base ten.
pub open spec fn digits_value(digits: Seq<char>) -> nat
    decreases digits.len(),
{
    if digits.len() == 0 {
        0
    } else {
        digits_value(digits.drop_last()) * 10 + (digits.last() as nat - '0' as nat) as nat
    }
}

/// The digits of a text that may start with one `+`.
pub open spec fn unsigned_part(text: Seq<char>) -> Seq<char> {
    if text.len() > 0 && text[0] == '+' {
        text.drop_first()
    } else {
        text
    }
}

/// The identifier that a text writes: one or more digits, after one `+` or
/// none, whose value fits 32 bits. Any other text writes none.
pub open spec fn id_of_text(text: Seq<char>) -> Option<u32> {
    let digits = unsigned_part(text);
    if digits.len() > 0 && (forall|i: int| 0 <= i < digits.len() ==> is_digit(#[trigger] digits[i]))
        && digits_value(digits) <= u32::MAX {
        Some(digits_value(digits) as u32)
    } else {
        None
    }
}

impl Choice {
    /// The choice that a text names: `1` to `5`, in the order of the menu.
    pub open spec fn of_text(text: Seq<char>) -> Option<Choice> {
        if text == "1"@ {
            Some(Choice::Add)
        } else if text == "2"@ {
            Some(Choice::List)
        } else if text == "3"@ {
            Some(Choice::Complete)
        } else if text == "4"@ {
            Some(Choice::Delete)
        } else if text == "5"@ {
            Some(Choice::SaveAndExit)
        } else {
            None
        }
    }

    /// The choice that a text names, if it names one.
    pub fn from_text(text: &str) -> (choice: Option<Choice>)
        ensures
            choice == Choice::of_text(text@),
    {
        if same_text(text, "1") {
            Some(Choice::Add)
        } else if same_text(text, "2") {
            Some(Choice::List)
        } else if same_text(text, "3") {
            Some(Choice::Complete)
        } else if same_text(text, "4") {
            Some(Choice::Delete)
        } else if same_text(text, "5") {
            Some(Choice::SaveAndExit)
        } else {
            None
        }
    }

    /// The choice that a line names once the white space at its ends is
    /// taken off.
    pub fn from_line(line: &str) -> (choice: Option<Choice>)
        ensures
            choice == Choice::of_text(trimmed(line@)),
    {
        Choice::from_text(trim(line))
    }
}

/// The value of digits read so far is no more than the value of all of them.
pub proof fn lemma_digits_value_grows(digits: Seq<char>, n: int)
    requires
        0 <= n <= digits.len(),
        forall|i: int| 0 <= i < digits.len() ==> is_digit(#[trigger] digits[i]),
    ensures
        digits_value(digits.take(n)) <= digits_value(digits),
    decreases digits.len() - n,
{
    if n == digits.len() {
        assert(digits.take(n) =~= digits);
    } else {
        lemma_digits_value_grows(digits, n + 1);
        assert(digits.take(n + 1).drop_last() =~= digits.take(n));
        assert(is_digit(digits[n]));
        assert(digits.take(n + 1).last() == digits[n]);
    }
}

/// The identifier that a text writes, if it writes one.
pub fn id_from_text(text: &str) -> (id: Option<u32>)
    ensures
        id == id_of_text(text@),
{
    let ghost digits = unsigned_part(text@);
    let mut value: u64 = 0;
    let mut at_start = true;
    let mut signed = false;
    let mut any = false;
    for c in iter: text.chars()
        invariant
            iter.seq() == text@,
            digits == unsigned_part(text@),
            at_start == (iter.index() == 0),
            signed == (iter.index() > 0 && text@[0] == '+'),
            any == (iter.index() > (if signed { 1int } else { 0int })),
            !at_start ==> digits.len() == text@.len() - (if signed { 1int } else { 0int }),
            forall|j: int|
                0 <= j < iter.index() - (if signed { 1int } else { 0int }) ==> is_digit(
                    #[trigger] digits[j],
                ),
            !at_start ==> value == digits_value(
                digits.take(iter.index() - (if signed { 1int } else { 0int })),
            ),
            at_start ==> value == 0,
            value <= u32::MAX,
    {
        if at_start && c == '+' {
            signed = true;
            proof {
                assert(digits.take(0) =~= Seq::<char>::empty());
            }
        } else {
            let ghost k = iter.index() - (if signed { 1int } else { 0int });
            assert(digits[k] == c);
            if c < '0' || c > '9' {
                assert(!is_digit(digits[k]));
                return None;
            }
            proof {
                assert(digits.take(0) =~= Seq::<char>::empty());
                assert(digits.take(k + 1).drop_last() =~= digits.take(k));
                assert(digits.take(k + 1).last() == c);
            }
            value = value * 10 + (c as u64 - '0' as u64);
            if value > u32::MAX as u64 {
                proof {
                    if forall|j: int| 0 <= j < digits.len() ==> is_digit(#[trigger] digits[j]) {
                        lemma_digits_value_grows(digits, k + 1);
                    }
                }
                return None;
            }
            any = true;
        }
        at_start = false;
    }
    if !any {
        return None;
    }
    proof {
        assert(digits.take(digits.len() as int) =~= digits);
    }
    Some(value as u32)
}

/// The identifier that a line writes once the white space at its ends is
/// taken off.
pub fn id_from_line(line: &str) -> (id: Option<u32>)
    ensures
        id == id_of_text(trimmed(line@)),
{
    id_from_text(trim(line))
}

} // verus!

//! Number literals: the run of characters that makes one, and what it denotes.

use vstd::prelude::*;
use crate::error::{ParsingError, ParsingFault};
use crate::scan::{
    digit, find_stop, first_stop, is_digit, is_number_start, occurrences, stops, Stop,
};
use crate::text::text_of;
use crate::value::{instructions, Instruction, Stack, Value, ValueType};

verus! {

/// Why a text is not an integer that fits in 64 bits.
#[derive(Debug, Clone, Copy, PartialEq, Eq, Structural)]
pub enum IntFault {
    /// The text is empty.
    Empty,
    /// A character is not a digit, or a sign stands alone.
    InvalidDigit,
    /// The number is larger than the largest 64-bit integer.
    PosOverflow,
    /// The number is smaller than the smallest 64-bit integer.
    NegOverflow,
}

/// `text` without its `_` separators.
pub open spec fn stripped(text: Seq<char>) -> Seq<char>
    decreases text.len(),
{
    if text.len() == 0 {
        Seq::empty()
    } else if text.last() == '_' {
        stripped(text.drop_last())
    } else {
        stripped(text.drop_last()).push(text.last())
    }
}

/// The length of the number that begins `text`: its longest prefix made of digits,
/// `-`, `_` and `.`.
pub open spec fn run_length(text: Seq<char>) -> int {
    first_stop(text, Stop::NotNumeric)
}

/// The digit that `ch` writes.
pub open spec fn digit_value(ch: char) -> int {
    ch as int - '0' as int
}

/// Reading the digits of `text` from index `from` on, left to right, into `acc`,
/// which holds what the digits before `from` denote. A negative number is built
/// downwards, so that the smallest integer can be read. Reading stops at the first
/// character that is no digit, and at the first digit with which the number leaves
/// the 64-bit range.
pub open spec fn read_digits(text: Seq<char>, from: int, acc: int, negative: bool) -> Result<
    i64,
    IntFault,
>
    decreases text.len() - from,
{
    if from < 0 || from >= text.len() {
        Ok(acc as i64)
    } else if !is_digit(text[from]) {
        Err(IntFault::InvalidDigit)
    } else {
        let next = if negative {
            acc * 10 - digit_value(text[from])
        } else {
            acc * 10 + digit_value(text[from])
        };
        if next > i64::MAX {
            Err(IntFault::PosOverflow)
        } else if next < i64::MIN {
            Err(IntFault::NegOverflow)
        } else {
            read_digits(text, from + 1, next, negative)
        }
    }
}

/// The 64-bit integer that `text` writes in decimal: an optional sign, then one
/// digit or more.
pub open spec fn parse_int(text: Seq<char>) -> Result<i64, IntFault> {
    if text.len() == 0 {
        Err(IntFault::Empty)
    } else if text[0] == '-' || text[0] == '+' {
        if text.len() == 1 {
            Err(IntFault::InvalidDigit)
        } else {
            read_digits(text, 1, 0, text[0] == '-')
        }
    } else {
        read_digits(text, 0, 0, false)
    }
}

/// The words that tell of an [`IntFault`].
pub open spec fn fault_text(fault: IntFault) -> Seq<char> {
    match fault {
        IntFault::Empty => "cannot parse integer from empty string"@,
        IntFault::InvalidDigit => "invalid digit found in string"@,
        IntFault::PosOverflow => "number too large to fit in target type"@,
        IntFault::NegOverflow => "number too small to fit in target type"@,
    }
}

/// `text` without a sign at its start.
pub open spec fn unsigned(text: Seq<char>) -> Seq<char> {
    if text.len() > 0 && (text[0] == '-' || text[0] == '+') {
        text.drop_first()
    } else {
        text
    }
}

/// Whether `text` writes a number with a decimal point in plain decimal notation:
/// an optional sign, then digits with at most one `.` among them, and at least one
/// digit.
pub open spec fn is_decimal(text: Seq<char>) -> bool {
    let body = unsigned(text);
    &&& forall|j: int| 0 <= j < body.len() ==> is_digit(#[trigger] body[j]) || body[j] == '.'
    &&& occurrences(body, '.') <= 1
    &&& occurrences(body, '.') < body.len()
}

/// What a number literal denotes, its separators removed: with a `.` in it, the
/// decimal itself, to be converted when the program runs; without one, a 64-bit
/// integer.
pub open spec fn literal(text: Seq<char>) -> Result<Instruction, ParsingFault> {
    if text.contains('.') {
        if is_decimal(text) {
            Ok(Instruction::Decimal(text))
        } else {
            Err(
                ParsingFault::ExtractionError {
                    what: "Float"@,
                    reason: "invalid float literal"@,
                },
            )
        }
    } else {
        match parse_int(text) {
            Ok(number) => Ok(Instruction::Value(Value::Int(number))),
            Err(fault) => Err(
                ParsingFault::ExtractionError { what: "Int"@, reason: fault_text(fault) },
            ),
        }
    }
}

/// Reads `text` as a 64-bit integer in decimal.
pub fn read_int(text: &[char]) -> (res: Result<i64, IntFault>)
    ensures
        res == parse_int(text@),
{
    if text.len() == 0 {
        return Err(IntFault::Empty);
    }
    let negative = text[0] == '-';
    let mut k: usize = 0;
    if text[0] == '-' || text[0] == '+' {
        if text.len() == 1 {
            return Err(IntFault::InvalidDigit);
        }
        k = 1;
    }
    let mut acc: i64 = 0;
    while k < text.len()
        invariant
            k <= text@.len(),
            read_digits(text@, k as int, acc as int, negative) == parse_int(text@),
        decreases text@.len() - k,
    {
        let ch = text[k];
        if !digit(ch) {
            return Err(IntFault::InvalidDigit);
        }
        let value: i128 = ch as u32 as i128 - '0' as u32 as i128;
        let next: i128 = if negative {
            acc as i128 * 10 - value
        } else {
            acc as i128 * 10 + value
        };
        if next > i64::MAX as i128 {
            return Err(IntFault::PosOverflow);
        }
        if next < i64::MIN as i128 {
            return Err(IntFault::NegOverflow);
        }
        acc = next as i64;
        k += 1;
    }
    Ok(acc)
}

/// Tells whether `text` writes a number in plain decimal notation with at most one
/// point.
pub fn check_decimal(text: &[char]) -> (r: bool)
    ensures
        r == is_decimal(text@),
{
    let start: usize = if text.len() > 0 && (text[0] == '-' || text[0] == '+') {
        1
    } else {
        0
    };
    let ghost body = unsigned(text@);
    let mut points: usize = 0;
    let mut k: usize = start;
    while k < text.len()
        invariant
            start <= k <= text@.len(),
            start <= 1,
            body == unsigned(text@),
            body.len() == text@.len() - start,
            forall|j: int| 0 <= j < body.len() ==> body[j] == text@[j + start],
            forall|j: int| 0 <= j < k - start ==> is_digit(#[trigger] body[j]) || body[j] == '.',
            points == occurrences(body.take(k - start), '.'),
            points <= k - start,
        decreases text@.len() - k,
    {
        proof {
            assert(body.take(k + 1 - start).drop_last() =~= body.take(k - start));
        }
        let ch = text[k];
        if ch == '.' {
            points += 1;
        } else if !digit(ch) {
            assert(!is_digit(body[k - start]) && body[k - start] != '.');
            return false;
        }
        k += 1;
    }
    proof {
        assert(body.take(body.len() as int) =~= body);
    }
    points <= 1 && points < text.len() - start
}

/// The separators of the first `upto` characters of `src` removed.
pub fn strip(src: &[char], upto: usize) -> (text: Vec<char>)
    requires
        upto <= src@.len(),
    ensures
        text@ == stripped(src@.take(upto as int)),
{
    let mut text: Vec<char> = Vec::new();
    let mut k: usize = 0;
    while k < upto
        invariant
            k <= upto <= src@.len(),
            text@ == stripped(src@.take(k as int)),
        decreases upto - k,
    {
        proof {
            assert(src@.take(k + 1).drop_last() =~= src@.take(k as int));
        }
        if src[k] != '_' {
            text.push(src[k]);
        }
        k += 1;
    }
    text
}

/// Tells whether `text` holds `ch`.
pub fn holds(text: &[char], ch: char) -> (r: bool)
    ensures
        r == text@.contains(ch),
{
    let mut k: usize = 0;
    while k < text.len()
        invariant
            k <= text@.len(),
            forall|j: int| 0 <= j < k ==> text@[j] != ch,
        decreases text@.len() - k,
    {
        if text[k] == ch {
            return true;
        }
        k += 1;
    }
    false
}

/// The words that tell of `fault`.
pub fn describe(fault: IntFault) -> (text: String)
    ensures
        text@ == fault_text(fault),
{
    match fault {
        IntFault::Empty => "cannot parse integer from empty string".to_string(),
        IntFault::InvalidDigit => "invalid digit found in string".to_string(),
        IntFault::PosOverflow => "number too large to fit in target type".to_string(),
        IntFault::NegOverflow => "number too small to fit in target type".to_string(),
    }
}

/// Reads the number that begins `src` and puts it at the end of `stack`.
///
/// The number is the longest run of digits, `-`, `_` and `.`; the cursor moves to
/// its last character, whatever follows. A `_` only separates digits and counts for
/// nothing. A run with a `.` in it is a decimal, kept as written; any other is a
/// 64-bit integer. A run that writes neither is an extraction error, and `stack`
/// stays as it was.
pub fn number(src: &[char], stack: &mut Vec<Stack>, i: &mut usize) -> (res: Result<(), ParsingError>)
    requires
        is_number_start(src@),
        *old(i) + src@.len() <= usize::MAX,
    ensures
        1 <= run_length(src@) <= src@.len(),
        forall|j: int| 0 <= j < run_length(src@) ==> !stops(Stop::NotNumeric, #[trigger] src@[j]),
        run_length(src@) < src@.len() ==> stops(Stop::NotNumeric, src@[run_length(src@)]),
        *final(i) == *old(i) + run_length(src@) - 1,
        match literal(stripped(src@.take(run_length(src@)))) {
            Ok(entry) => res is Ok && instructions(final(stack)@) == instructions(old(stack)@).push(
                entry,
            ),
            Err(fault) => res is Err && res->Err_0@ == fault && instructions(final(stack)@)
                == instructions(old(stack)@),
        },
{
    let index = find_stop(src, Stop::NotNumeric);
    proof {
        if is_digit(src@[0]) {
        } else {
        }
    }
    let num = strip(src, index);
    *i += index - 1;
    if holds(num.as_slice(), '.') {
        if check_decimal(num.as_slice()) {
            let entry = Stack::Decimal(text_of(num.as_slice()));
            stack.push(entry);
            Ok(())
        } else {
            Err(
                ParsingError::ExtractionError {
                    what: "Float".to_string(),
                    reason: "invalid float literal".to_string(),
                },
            )
        }
    } else {
        match read_int(num.as_slice()) {
            Ok(value) => {
                let entry = Stack::Value(ValueType::Int(value));
                stack.push(entry);
                Ok(())
            },
            Err(fault) => Err(
                ParsingError::ExtractionError { what: "Int".to_string(), reason: describe(fault) },
            ),
        }
    }
}

} // verus!

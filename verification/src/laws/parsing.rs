//! What holds of the parser, whatever the text.

use vstd::prelude::*;
use crate::error::ParsingFault;
use crate::number::{
    digit_value, is_decimal, literal, parse_int, read_digits, stripped, unsigned, IntFault,
};
use crate::operation::{operator_named, OperationType};
use crate::parser::{
    lemma_closing_bracket, parsed, reach, registered_macro, resolved, scoped, unit, Outcome,
    Parse,
};
use crate::scan::{
    advanced, closes_at, closes_comment, closing_bracket, closing_from, comment_close, depth,
    is_digit, is_number_start, lemma_comment_close, newlines,
};
use crate::value::{Instruction, Value};

verus! {

/// The number that a text of digits writes in decimal.
pub open spec fn decimal_value(digits: Seq<char>) -> nat
    decreases digits.len(),
{
    if digits.len() == 0 {
        0
    } else {
        (decimal_value(digits.drop_last()) * 10 + digit_value(digits.last())) as nat
    }
}

/// Whether `text` is made of digits and `_` separators alone.
pub open spec fn is_digit_run(text: Seq<char>) -> bool {
    forall|k: int| 0 <= k < text.len() ==> is_digit(#[trigger] text[k]) || text[k] == '_'
}

/// The digits of a digit run are digits.
proof fn lemma_stripped_digits(text: Seq<char>)
    requires
        is_digit_run(text),
    ensures
        forall|k: int| 0 <= k < stripped(text).len() ==> is_digit(#[trigger] stripped(text)[k]),
        !stripped(text).contains('.'),
        !stripped(text).contains('-'),
        !stripped(text).contains('+'),
    decreases text.len(),
{
    if text.len() > 0 {
        lemma_stripped_digits(text.drop_last());
    }
}

/// Whether `text` writes an integer in decimal: an optional sign, then one digit or
/// more and nothing else.
pub open spec fn is_integer_literal(text: Seq<char>) -> bool {
    &&& unsigned(text).len() > 0
    &&& forall|j: int| 0 <= j < unsigned(text).len() ==> is_digit(#[trigger] unsigned(text)[j])
}

/// The integer that an integer literal writes.
pub open spec fn integer_value(text: Seq<char>) -> int {
    if text.len() > 0 && text[0] == '-' {
        -(decimal_value(unsigned(text)) as int)
    } else {
        decimal_value(unsigned(text)) as int
    }
}

/// A number with its sign.
pub open spec fn signed(negative: bool, number: nat) -> int {
    if negative {
        -(number as int)
    } else {
        number as int
    }
}

/// Reading digits from `from` on, with what the digits since `start` denote in
/// hand, comes to what all the digits since `start` denote.
proof fn lemma_digits_are_read(text: Seq<char>, start: int, from: int, negative: bool)
    requires
        0 <= start <= from <= text.len(),
        forall|j: int| start <= j < text.len() ==> is_digit(#[trigger] text[j]),
        i64::MIN <= signed(negative, decimal_value(text.skip(start))) <= i64::MAX,
    ensures
        read_digits(
            text,
            from,
            signed(negative, decimal_value(text.subrange(start, from))),
            negative,
        ) == Ok::<i64, IntFault>(signed(negative, decimal_value(text.skip(start))) as i64),
    decreases text.len() - from,
{
    if from == text.len() {
        assert(text.subrange(start, from) =~= text.skip(start));
    } else {
        assert(text.subrange(start, from + 1).drop_last() =~= text.subrange(start, from));
        assert(text.subrange(start, from + 1).last() == text[from]);
        assert(is_digit(text[from]));
        lemma_digits_are_read(text, start, from + 1, negative);
    }
}

/// Where reading from `from` on succeeds, with what the digits since `start`
/// denote in hand, all that follows is digits, and what is read is what the digits
/// since `start` denote.
proof fn lemma_what_is_read_is_digits(text: Seq<char>, start: int, from: int, negative: bool)
    requires
        0 <= start <= from <= text.len(),
        forall|j: int| start <= j < from ==> is_digit(#[trigger] text[j]),
        i64::MIN <= signed(negative, decimal_value(text.subrange(start, from))) <= i64::MAX,
        read_digits(
            text,
            from,
            signed(negative, decimal_value(text.subrange(start, from))),
            negative,
        ) is Ok,
    ensures
        forall|j: int| start <= j < text.len() ==> is_digit(#[trigger] text[j]),
        i64::MIN <= signed(negative, decimal_value(text.skip(start))) <= i64::MAX,
        read_digits(
            text,
            from,
            signed(negative, decimal_value(text.subrange(start, from))),
            negative,
        ) == Ok::<i64, IntFault>(signed(negative, decimal_value(text.skip(start))) as i64),
    decreases text.len() - from,
{
    if from == text.len() {
        assert(text.subrange(start, from) =~= text.skip(start));
    } else {
        assert(text.subrange(start, from + 1).drop_last() =~= text.subrange(start, from));
        assert(text.subrange(start, from + 1).last() == text[from]);
        assert(is_digit(text[from]));
        lemma_what_is_read_is_digits(text, start, from + 1, negative);
        assert forall|j: int| start <= j < text.len() implies is_digit(#[trigger] text[j]) by {
            if j < from {
                assert(is_digit(text[j]));
            }
        }
    }
}

/// A text is read as a 64-bit integer exactly if it writes one in decimal: an
/// optional sign, then digits, denoting a number that fits in 64 bits. What is
/// read is that number.
pub proof fn law_integers_are_read_in_decimal(text: Seq<char>)
    ensures
        parse_int(text) is Ok <==> is_integer_literal(text) && i64::MIN <= integer_value(text)
            <= i64::MAX,
        parse_int(text) is Ok ==> parse_int(text)->Ok_0 == integer_value(text),
{
    if text.len() > 0 {
        let negative = text[0] == '-';
        let start: int = if text[0] == '-' || text[0] == '+' {
            1
        } else {
            0
        };
        assert(unsigned(text) =~= text.skip(start));
        assert(text.subrange(start, start) =~= Seq::<char>::empty());
        assert(integer_value(text) == signed(negative, decimal_value(text.skip(start))));
        assert forall|j: int| 0 <= j < unsigned(text).len() implies unsigned(text)[j] == text[j
            + start] by {}
        if text.len() > start {
            if parse_int(text) is Ok {
                lemma_what_is_read_is_digits(text, start, start, negative);
                assert forall|j: int| 0 <= j < unsigned(text).len() implies is_digit(
                    #[trigger] unsigned(text)[j],
                ) by {
                    assert(is_digit(text[j + start]));
                }
            }
            if is_integer_literal(text) && i64::MIN <= integer_value(text) <= i64::MAX {
                assert forall|j: int| start <= j < text.len() implies is_digit(
                    #[trigger] text[j],
                ) by {
                    assert(is_digit(unsigned(text)[j - start]));
                }
                lemma_digits_are_read(text, start, start, negative);
            }
        }
    }
}

/// What a number literal denotes, its separators removed. Without a `.` it is read
/// as an integer: it is accepted exactly if it writes one in decimal that fits in 64
/// bits, and denotes that integer. With a `.` it is a decimal: it is accepted
/// exactly if it is an optional sign and digits around one point, and is kept as
/// written.
pub proof fn law_number_literals(text: Seq<char>)
    ensures
        !text.contains('.') ==> (literal(text) is Ok <==> is_integer_literal(text) && i64::MIN
            <= integer_value(text) <= i64::MAX),
        !text.contains('.') && literal(text) is Ok ==> literal(text) == Ok::<
            Instruction,
            ParsingFault,
        >(Instruction::Value(Value::Int(integer_value(text) as i64))),
        text.contains('.') ==> (literal(text) is Ok <==> is_decimal(text)),
        text.contains('.') && literal(text) is Ok ==> literal(text) == Ok::<
            Instruction,
            ParsingFault,
        >(Instruction::Decimal(text)),
{
    law_integers_are_read_in_decimal(text);
}

/// A run of digits with `_` separators among them denotes the integer that its
/// digits write, as long as that integer fits in 64 bits; the separators count for
/// nothing, wherever they stand.
pub proof fn law_separators_count_for_nothing(run: Seq<char>)
    requires
        is_digit_run(run),
        stripped(run).len() > 0,
        decimal_value(stripped(run)) <= i64::MAX,
    ensures
        literal(stripped(run)) == Ok::<Instruction, ParsingFault>(
            Instruction::Value(Value::Int(decimal_value(stripped(run)) as i64)),
        ),
{
    let digits = stripped(run);
    lemma_stripped_digits(run);
    assert(is_digit(digits[0]));
    assert(unsigned(digits) == digits);
    law_integers_are_read_in_decimal(digits);
}

/// Scanning for the closing brace from `from` on, with the braces before `from`
/// counted in `open` and none of them closing, finds the first index that closes.
proof fn lemma_closing_scan(text: Seq<char>, from: int, open: int)
    requires
        0 <= from <= text.len(),
        open == depth(text.take(from)),
        open >= 0,
        forall|k: int| 0 <= k < from ==> !closes_at(text, k),
    ensures
        from + 1 <= closing_from(text, from, open) <= text.len() + 1,
        closing_from(text, from, open) <= text.len() ==> closes_at(
            text,
            closing_from(text, from, open) - 1,
        ),
        forall|k: int| 0 <= k < closing_from(text, from, open) - 1 ==> !closes_at(text, k),
    decreases text.len() - from,
{
    if from < text.len() {
        assert(text.take(from + 1).drop_last() =~= text.take(from));
        if text[from] == '{' {
            lemma_closing_scan(text, from + 1, open + 1);
        } else if text[from] == '}' {
            if open != 0 {
                lemma_closing_scan(text, from + 1, open - 1);
            }
        } else {
            lemma_closing_scan(text, from + 1, open);
        }
    }
}

/// The closing brace of a scope is the first `}` before which the braces are
/// balanced; without such a brace the scope runs to the end of the text.
pub proof fn law_closing_bracket_is_first(text: Seq<char>)
    ensures
        1 <= closing_bracket(text) <= text.len() + 1,
        closing_bracket(text) <= text.len() ==> closes_at(text, closing_bracket(text) - 1),
        forall|k: int| 0 <= k < closing_bracket(text) - 1 ==> !closes_at(text, k),
{
    lemma_closing_scan(text, 0, 0);
}

/// Whether the braces of `text` pair off: as many `{` as `}`, and no `}` before
/// which the braces are balanced.
pub open spec fn is_balanced(text: Seq<char>) -> bool {
    &&& depth(text) == 0
    &&& forall|k: int| 0 <= k < text.len() ==> !closes_at(text, k)
}

/// A scope parses to what the text between its braces parses to on its own, with
/// the counters and the definitions of the text around it: `{`, a text whose braces
/// pair off, `}` and anything after is parsed as that text is.
pub proof fn law_scope_parses_as_its_inside(inside: Seq<char>, after: Seq<char>, state: Parse)
    requires
        is_balanced(inside),
    ensures
        closing_bracket(inside + seq!['}'] + after) == inside.len() + 1,
        scoped(seq!['{'] + inside + seq!['}'] + after, state) == parsed(
            inside,
            0,
            Parse { output: Seq::empty(), ..state },
        ),
{
    let text = seq!['{'] + inside + seq!['}'] + after;
    let tail = inside + seq!['}'] + after;
    assert(text.skip(1) =~= tail);
    law_closing_bracket_is_first(tail);
    let at = inside.len() as int;
    assert forall|k: int| 0 <= k <= at implies tail.take(k) == inside.take(k) by {
        assert(tail.take(k) =~= inside.take(k));
    }
    assert(inside.take(at) =~= inside);
    assert(tail[at] == '}');
    assert(closes_at(tail, at));
    assert forall|k: int| 0 <= k < at implies !closes_at(tail, k) by {
        assert(tail[k] == inside[k]);
        assert(!closes_at(inside, k));
    }
    let end = closing_bracket(tail);
    if end - 1 < at {
    }
    if end - 1 > at {
    }
    assert(text.subrange(1, end) =~= inside);
}

/// The parse goes on right after a scope: `{`, a text whose braces pair off, and
/// `}` put the program of that text into the program as one scope, and the next
/// step begins at the character after the `}`. A failure inside the scope ends the
/// parse.
pub proof fn law_parse_goes_on_after_a_scope(inside: Seq<char>, after: Seq<char>, state: Parse)
    requires
        is_balanced(inside),
    ensures
        ({
            let text = seq!['{'] + inside + seq!['}'] + after;
            let body = parsed(inside, 0, Parse { output: Seq::empty(), ..state });
            parsed(text, 0, state) == match body.fault {
                Some(fault) => Outcome {
                    state: Parse { output: state.output, ..body.state },
                    fault: Some(fault),
                },
                None => parsed(
                    text,
                    inside.len() as int + 2,
                    Parse {
                        output: state.output.push(
                            Instruction::Value(Value::Scope(body.state.output)),
                        ),
                        line_width: advanced(body.state.line_width, inside.len() as int + 2),
                        ..body.state
                    },
                ),
            }
        }),
{
    let text = seq!['{'] + inside + seq!['}'] + after;
    law_scope_parses_as_its_inside(inside, after, state);
    assert(text.skip(0) =~= text);
    assert(text.skip(1) =~= inside + seq!['}'] + after);
    assert(text[0] == '{');
    assert(!is_number_start(text));
    assert(reach(text) == inside.len() + 1);
    let step = unit(text, state);
    let body = scoped(text, state);
    if body.fault is None {
        assert(step.fault is None);
        assert(parsed(text, 0, state) == parsed(
            text,
            inside.len() as int + 2,
            Parse {
                line_width: advanced(step.state.line_width, inside.len() as int + 2),
                ..step.state
            },
        ));
    } else {
        assert(step.fault == body.fault);
        assert(parsed(text, 0, state) == step);
    }
}

/// The parse goes on right after a block comment: where `/*` begins the text and
/// the first `*/` after it begins at `close`, nothing joins the program, the line feeds of
/// the comment are counted, and the next step begins at the character after the
/// `*/`.
pub proof fn law_parse_goes_on_after_a_block_comment(text: Seq<char>, close: int, state: Parse)
    requires
        text.len() >= 2,
        text[0] == '/',
        text[1] == '*',
        2 <= close,
        closes_comment(text, close),
        forall|j: int| 2 <= j < close ==> !closes_comment(text, j),
    ensures
        comment_close(text) == close,
        ({
            let lines = newlines(text.take(close));
            let counted = if lines != 0 {
                Parse {
                    line_height: advanced(state.line_height, lines as int),
                    line_width: 0,
                    ..state
                }
            } else {
                state
            };
            parsed(text, 0, state) == parsed(
                text,
                close + 2,
                Parse { line_width: advanced(counted.line_width, close + 2), ..counted },
            )
        }),
{
    lemma_comment_close(text, 2);
    let found = comment_close(text);
    if found < close {
        assert(closes_comment(text, found));
    }
    if found > close {
        assert(!closes_comment(text, close));
    }
    assert(text.skip(0) =~= text);
    assert(reach(text) == close + 1);
    let step = unit(text, state);
    assert(step.fault is None);
    assert(parsed(text, 0, state) == parsed(
        text,
        close + 2,
        Parse { line_width: advanced(step.state.line_width, close + 2), ..step.state },
    ));
}

/// A macro that is registered stands for its body from then on: where the last two
/// entries of the program are a scope and a text that names no operator,
/// `macro` takes both away, and the name, met as a word later in the same parse,
/// puts the entries of the scope at the end of the program, one for one.
pub proof fn law_macro_resolves_to_its_body(
    name: Seq<char>,
    body: Seq<Instruction>,
    before: Seq<Instruction>,
    later: Seq<Instruction>,
    definitions: Map<Seq<char>, Seq<Instruction>>,
)
    requires
        operator_named(name) is None,
    ensures
        ({
            let registration = registered_macro(
                before.push(Instruction::Value(Value::Scope(body))).push(
                    Instruction::Value(Value::Text(name)),
                ),
                definitions,
            );
            &&& registration.fault is None
            &&& registration.output == before
            &&& registration.definitions == definitions.insert(name, body)
            &&& resolved(name, later, registration.definitions).fault is None
            &&& resolved(name, later, registration.definitions).output == later + body
            &&& resolved(name, later, registration.definitions).definitions
                == registration.definitions
        }),
{
    let output = before.push(Instruction::Value(Value::Scope(body))).push(
        Instruction::Value(Value::Text(name)),
    );
}

/// Defining a name again changes what it stands for from then on, and nothing
/// before: what an earlier use of the name put into the program stays as it is, and
/// the next use puts the new body there.
pub proof fn law_redefinition_leaves_earlier_uses(
    name: Seq<char>,
    first: Seq<Instruction>,
    second: Seq<Instruction>,
    before: Seq<Instruction>,
    definitions: Map<Seq<char>, Seq<Instruction>>,
)
    requires
        operator_named(name) is None,
    ensures
        ({
            let used = resolved(name, before, definitions.insert(name, first));
            let again = registered_macro(
                used.output.push(Instruction::Value(Value::Scope(second))).push(
                    Instruction::Value(Value::Text(name)),
                ),
                used.definitions,
            );
            let reused = resolved(name, again.output, again.definitions);
            &&& used.output == before + first
            &&& again.fault is None
            &&& again.output == before + first
            &&& reused.fault is None
            &&& reused.output == before + first + second
        }),
{
    let used = resolved(name, before, definitions.insert(name, first));
}

/// Whether a value holds no `macro` and no `const`, however deep in its scopes.
pub open spec fn value_is_finished(value: Value) -> bool
    decreases value,
{
    match value {
        Value::Scope(body) => is_finished(body),
        _ => true,
    }
}

/// Whether an entry is, and holds, no `macro` and no `const`.
pub open spec fn entry_is_finished(entry: Instruction) -> bool
    decreases entry,
{
    match entry {
        Instruction::Value(value) => value_is_finished(value),
        Instruction::Operation(operation) => operation != OperationType::Macro && operation
            != OperationType::Const,
        Instruction::Decimal(_) => true,
    }
}

/// Whether a program is finished: no `macro` and no `const` is left in it, however
/// deep in its scopes.
pub open spec fn is_finished(code: Seq<Instruction>) -> bool
    decreases code,
{
    forall|k: int| 0 <= k < code.len() ==> entry_is_finished(#[trigger] code[k])
}

/// Whether every definition stands for a finished program.
pub open spec fn all_finished(definitions: Map<Seq<char>, Seq<Instruction>>) -> bool {
    forall|name: Seq<char>|
        definitions.contains_key(name) ==> is_finished(#[trigger] definitions[name])
}

/// Whether a parse holds finished programs only.
pub open spec fn parse_is_finished(state: Parse) -> bool {
    is_finished(state.output) && all_finished(state.definitions)
}

/// One step keeps a parse finished.
proof fn lemma_unit_finished(text: Seq<char>, state: Parse)
    requires
        text.len() > 0,
        parse_is_finished(state),
    ensures
        parse_is_finished(unit(text, state).state),
    decreases text.len(), 1int, 0int,
{
    let ch = text[0];
    if ch == ' ' || ch == '\r' || ch == '\t' || ch == '\n' || ch == '/' {
    } else if is_number_start(text) {
    } else if ch == '"' || ch == '\'' {
    } else if ch == '{' {
        lemma_scoped_finished(text, state);
        let inside = scoped(text, state);
    } else {
    }
}

/// A scope keeps a parse finished, and is itself finished.
proof fn lemma_scoped_finished(text: Seq<char>, state: Parse)
    requires
        text.len() > 0,
        all_finished(state.definitions),
    ensures
        parse_is_finished(scoped(text, state).state),
    decreases text.len(), 0int, 0int,
{
    lemma_closing_bracket(text.skip(1), 0, 0);
    lemma_parsed_finished(
        text.subrange(1, closing_bracket(text.skip(1))),
        0,
        Parse { output: Seq::empty(), ..state },
    );
}

/// A parse that holds finished programs only ends as one.
proof fn lemma_parsed_finished(text: Seq<char>, from: int, state: Parse)
    requires
        parse_is_finished(state),
    ensures
        parse_is_finished(parsed(text, from, state).state),
    decreases text.len(), 2int, (if from < text.len() {
        text.len() - from
    } else {
        0
    }),
{
    if 0 <= from < text.len() {
        lemma_unit_finished(text.skip(from), state);
        let step = unit(text.skip(from), state);
        if step.fault is None {
            let moved = reach(text.skip(from));
            lemma_parsed_finished(
                text,
                from + moved + 1,
                Parse {
                    line_width: advanced(step.state.line_width, moved as int + 1),
                    ..step.state
                },
            );
        }
    }
}

/// `macro` and `const` never survive into a parsed program: a parse that begins
/// with none of them in its program and its definitions ends with none, in the
/// program, in the scopes nested in it and in what the definitions stand for,
/// whether the parse succeeds or fails.
pub proof fn law_parse_time_operations_never_survive(text: Seq<char>, state: Parse)
    requires
        is_finished(state.output),
        all_finished(state.definitions),
    ensures
        is_finished(parsed(text, 0, state).state.output),
        all_finished(parsed(text, 0, state).state.definitions),
{
    lemma_parsed_finished(text, 0, state);
}

} // verus!

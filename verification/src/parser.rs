//! The parser: from source text to a program.
//!
//! The text is read once, left to right. Each step looks at the character under the
//! cursor and hands over to the scanner for what begins there: blank, line feed,
//! comment, number, string, scope or word. A scope is parsed by the same loop, on
//! the text between its braces. The first failure ends the parse.

use vstd::prelude::*;
use vstd::slice::slice_subrange;
use vstd::string::StringExecFns;
use crate::definitions::Definitions;
use crate::error::{ParsingError, ParsingFault};
use crate::number::{literal, number, run_length, stripped};
use crate::operation::{find_operator, operator_named, spells, OperationType};
use crate::scan::{
    advance, advanced, closing_bracket, closing_from, comment_close, count, find_closing_bracket,
    find_stop, first_stop, is_number_start, lemma_comment_close, lemma_first_stop,
    looks_like_number, newlines, skip_multiline, skip_singleline, stops, Stop,
};
use crate::text::text_of;
use crate::value::{instructions, lemma_instructions_push, Instruction, Stack, Value, ValueType};

verus! {

/// What a parse has come to at some point of the text.
pub struct Parse {
    /// The program built so far.
    pub output: Seq<Instruction>,
    /// The line counter.
    pub line_height: usize,
    /// The column counter.
    pub line_width: usize,
    /// The definitions registered so far.
    pub definitions: Map<Seq<char>, Seq<Instruction>>,
}

/// How a parse, or one step of it, ends: the parse at its end or at the failure, and
/// the failure if there was one.
pub struct Outcome {
    pub state: Parse,
    pub fault: Option<ParsingFault>,
}

/// What `macro` or `const` does to the program built so far and to the
/// definitions.
pub struct Resolution {
    pub output: Seq<Instruction>,
    pub definitions: Map<Seq<char>, Seq<Instruction>>,
    pub fault: Option<ParsingFault>,
}

/// The failure of a string literal that is never closed.
pub open spec fn unterminated() -> ParsingFault {
    ParsingFault::ExtractionError { what: "String"@, reason: "Could not find end of string."@ }
}

/// The failure of `macro` or `const` with fewer than two entries before it.
pub open spec fn too_few(what: Seq<char>) -> ParsingFault {
    ParsingFault::RegistrationError { what, reason: "Not enough arguments."@ }
}

/// The failure of `macro` or `const` where the entry in the slot of the name is no
/// text.
pub open spec fn unnamed(got: Instruction) -> ParsingFault {
    ParsingFault::MismatchedTypes { expected: "Text"@, got }
}

/// The failure of a word that names nothing.
pub open spec fn unknown(word: Seq<char>) -> ParsingFault {
    ParsingFault::KeywordError { reason: "Invalid keyword: `"@ + word + "`."@ }
}

/// Where the string literal that begins `text` is closed: the index, counted from
/// the character after the opening quote, of the next quote of either kind.
pub open spec fn string_close(text: Seq<char>) -> Option<int> {
    let at = first_stop(text.skip(1), Stop::Quote);
    if at < text.len() - 1 {
        Some(at)
    } else {
        None
    }
}

/// `macro`: the last entry names, the one before it is the scope to be named. Both
/// leave the program.
pub open spec fn registered_macro(
    output: Seq<Instruction>,
    definitions: Map<Seq<char>, Seq<Instruction>>,
) -> Resolution {
    if output.len() < 2 {
        Resolution { output, definitions, fault: Some(too_few("Macro"@)) }
    } else {
        match output.last() {
            Instruction::Value(Value::Text(name)) => match output[output.len() - 2] {
                Instruction::Value(Value::Scope(contents)) => Resolution {
                    output: output.take(output.len() - 2),
                    definitions: definitions.insert(name, contents),
                    fault: None,
                },
                other => Resolution {
                    output: output.take(output.len() - 2),
                    definitions,
                    fault: Some(ParsingFault::MismatchedTypes { expected: "Scope"@, got: other }),
                },
            },
            other => Resolution {
                output: output.drop_last(),
                definitions,
                fault: Some(unnamed(other)),
            },
        }
    }
}

/// `const`: the last entry names, the one before it is the literal to be named. Both
/// leave the program.
pub open spec fn registered_constant(
    output: Seq<Instruction>,
    definitions: Map<Seq<char>, Seq<Instruction>>,
) -> Resolution {
    if output.len() < 2 {
        Resolution { output, definitions, fault: Some(too_few("Constant"@)) }
    } else {
        match output.last() {
            Instruction::Value(Value::Text(name)) => match output[output.len() - 2] {
                Instruction::Operation(operation) => Resolution {
                    output: output.take(output.len() - 2),
                    definitions,
                    fault: Some(
                        ParsingFault::MismatchedTypes {
                            expected: "Value"@,
                            got: Instruction::Operation(operation),
                        },
                    ),
                },
                constant => Resolution {
                    output: output.take(output.len() - 2),
                    definitions: definitions.insert(name, seq![constant]),
                    fault: None,
                },
            },
            other => Resolution {
                output: output.drop_last(),
                definitions,
                fault: Some(unnamed(other)),
            },
        }
    }
}

/// What the word `word` does. An operator comes first and cannot be redefined:
/// `macro` and `const` register, any other joins the program. Then a definition:
/// its whole program is spliced in. Then `true` and `false`. Any other word, if it
/// is not empty, is a failure.
pub open spec fn resolved(
    word: Seq<char>,
    output: Seq<Instruction>,
    definitions: Map<Seq<char>, Seq<Instruction>>,
) -> Resolution {
    match operator_named(word) {
        Some(OperationType::Macro) => registered_macro(output, definitions),
        Some(OperationType::Const) => registered_constant(output, definitions),
        Some(operation) => Resolution {
            output: output.push(Instruction::Operation(operation)),
            definitions,
            fault: None,
        },
        None => if definitions.contains_key(word) {
            Resolution { output: output + definitions[word], definitions, fault: None }
        } else if word == "true"@ {
            Resolution {
                output: output.push(Instruction::Value(Value::Bool(true))),
                definitions,
                fault: None,
            }
        } else if word == "false"@ {
            Resolution {
                output: output.push(Instruction::Value(Value::Bool(false))),
                definitions,
                fault: None,
            }
        } else if word.len() != 0 {
            Resolution { output, definitions, fault: Some(unknown(word)) }
        } else {
            Resolution { output, definitions, fault: None }
        },
    }
}

/// How far one step of the parser moves the cursor over `text`, the source from the
/// cursor on: to the last character of what the step consumes, so that the next
/// step begins right after it. The last character of a block comment is the `/` of
/// its `*/`, that of a scope its closing `}`; one that is never closed is consumed
/// with all that follows.
pub open spec fn reach(text: Seq<char>) -> nat
    recommends
        text.len() > 0,
{
    let ch = text[0];
    if ch == ' ' || ch == '\r' || ch == '\t' || ch == '\n' {
        0
    } else if ch == '/' {
        if text.len() > 1 && text[1] == '*' {
            (comment_close(text) + 1) as nat
        } else if text.len() > 1 && text[1] == '/' {
            (first_stop(text, Stop::Newline) - 1) as nat
        } else {
            0
        }
    } else if is_number_start(text) {
        (run_length(text) - 1) as nat
    } else if ch == '"' || ch == '\'' {
        match string_close(text) {
            Some(close) => (close + 1) as nat,
            None => 0,
        }
    } else if ch == '{' {
        closing_bracket(text.skip(1)) as nat
    } else {
        (first_stop(text, Stop::Blank) - 1) as nat
    }
}

/// One step of the parser on `text`, the source from the cursor on.
pub open spec fn unit(text: Seq<char>, state: Parse) -> Outcome
    recommends
        text.len() > 0,
    decreases text.len(), 1int, 0int,
{
    let ch = text[0];
    if ch == ' ' || ch == '\r' || ch == '\t' {
        Outcome { state, fault: None }
    } else if ch == '\n' {
        Outcome {
            state: Parse { line_height: advanced(state.line_height, 1), line_width: 0, ..state },
            fault: None,
        }
    } else if ch == '/' {
        if text.len() > 1 && text[1] == '*' {
            let lines = newlines(text.take(comment_close(text)));
            Outcome {
                state: if lines != 0 {
                    Parse {
                        line_height: advanced(state.line_height, lines as int),
                        line_width: 0,
                        ..state
                    }
                } else {
                    state
                },
                fault: None,
            }
        } else if text.len() > 1 && text[1] == '/' {
            Outcome { state, fault: None }
        } else {
            Outcome {
                state: Parse {
                    output: state.output.push(Instruction::Operation(OperationType::Div)),
                    ..state
                },
                fault: None,
            }
        }
    } else if is_number_start(text) {
        match literal(stripped(text.take(run_length(text)))) {
            Ok(entry) => Outcome {
                state: Parse { output: state.output.push(entry), ..state },
                fault: None,
            },
            Err(fault) => Outcome { state, fault: Some(fault) },
        }
    } else if ch == '"' || ch == '\'' {
        match string_close(text) {
            Some(close) => {
                let word = text.subrange(1, close + 1);
                let lines = newlines(word);
                Outcome {
                    state: Parse {
                        output: state.output.push(Instruction::Value(Value::Text(word))),
                        line_height: if lines != 0 {
                            advanced(state.line_height, lines as int)
                        } else {
                            state.line_height
                        },
                        line_width: if lines != 0 {
                            0
                        } else {
                            state.line_width
                        },
                        definitions: state.definitions,
                    },
                    fault: None,
                }
            },
            None => Outcome { state, fault: Some(unterminated()) },
        }
    } else if ch == '{' {
        let inside = scoped(text, state);
        match inside.fault {
            None => Outcome {
                state: Parse {
                    output: state.output.push(Instruction::Value(Value::Scope(inside.state.output))),
                    ..inside.state
                },
                fault: None,
            },
            Some(fault) => Outcome {
                state: Parse { output: state.output, ..inside.state },
                fault: Some(fault),
            },
        }
    } else {
        let resolution = resolved(
            text.take(first_stop(text, Stop::Blank)),
            state.output,
            state.definitions,
        );
        Outcome {
            state: Parse {
                output: resolution.output,
                definitions: resolution.definitions,
                ..state
            },
            fault: resolution.fault,
        }
    }
}

/// The parse of the scope that begins `text` with its `{`: the parse of the text
/// between the braces, or of all that follows where the scope is never closed,
/// begun with an empty program.
pub open spec fn scoped(text: Seq<char>, state: Parse) -> Outcome
    recommends
        text.len() > 0,
    decreases text.len(), 0int, 0int,
{
    if text.len() == 0 {
        Outcome { state, fault: None }
    } else {
        proof {
            lemma_closing_bracket(text.skip(1), 0, 0);
        }
        parsed(
            text.subrange(1, closing_bracket(text.skip(1))),
            0,
            Parse { output: Seq::empty(), ..state },
        )
    }
}

/// The parse of `text` from index `from` on: step after step until the text ends or
/// a step fails. After each step the column counter moves on by what the step
/// consumed.
pub open spec fn parsed(text: Seq<char>, from: int, state: Parse) -> Outcome
    decreases text.len(), 2int, (if from < text.len() {
        text.len() - from
    } else {
        0
    }),
{
    if from < 0 || from >= text.len() {
        Outcome { state, fault: None }
    } else {
        let step = unit(text.skip(from), state);
        let moved = reach(text.skip(from));
        match step.fault {
            Some(fault) => step,
            None => parsed(
                text,
                from + moved + 1,
                Parse { line_width: advanced(step.state.line_width, moved as int + 1), ..step.state },
            ),
        }
    }
}

/// The parse that the arguments of the parsing functions stand for.
pub open spec fn parse_of(
    stack: Vec<Stack>,
    line_height: usize,
    line_width: usize,
    user_definitions: Definitions,
) -> Parse {
    Parse {
        output: instructions(stack@),
        line_height,
        line_width,
        definitions: user_definitions@,
    }
}

/// A scope ends within its text, or one past it.
pub proof fn lemma_closing_bracket(text: Seq<char>, from: int, open: int)
    requires
        0 <= from <= text.len(),
    ensures
        from + 1 <= closing_from(text, from, open) <= text.len() + 1,
    decreases text.len() - from,
{
    if from < text.len() {
        if text[from] == '{' {
            lemma_closing_bracket(text, from + 1, open + 1);
        } else if text[from] == '}' {
            if open != 0 {
                lemma_closing_bracket(text, from + 1, open - 1);
            }
        } else {
            lemma_closing_bracket(text, from + 1, open);
        }
    }
}

/// No step moves the cursor further than one past the end of its text.
pub proof fn lemma_reach(text: Seq<char>)
    requires
        text.len() > 0,
    ensures
        reach(text) <= text.len() + 1,
{
    if text.len() >= 2 {
        lemma_comment_close(text, 2);
    }
    lemma_first_stop(text, Stop::Newline, 0);
    lemma_first_stop(text, Stop::NotNumeric, 0);
    lemma_first_stop(text, Stop::Blank, 0);
    lemma_first_stop(text.skip(1), Stop::Quote, 0);
    lemma_closing_bracket(text.skip(1), 0, 0);
}

/// Reads the string literal that begins `src` with its quote and puts the text at
/// the end of `stack`.
///
/// The literal ends with the next quote, of either kind; the text is what stands
/// strictly between the two. The cursor moves to the closing quote. Each line feed
/// in the text counts one line, and a text that holds any resets the column. A
/// literal that is never closed is an extraction error, and nothing changes.
pub fn string(
    src: &[char],
    stack: &mut Vec<Stack>,
    i: &mut usize,
    line_height: &mut usize,
    line_width: &mut usize,
) -> (res: Result<(), ParsingError>)
    requires
        src@.len() >= 1,
        *old(i) + src@.len() <= usize::MAX,
    ensures
        match string_close(src@) {
            Some(close) => {
                let word = src@.subrange(1, close + 1);
                &&& res is Ok
                &&& 0 <= close < src@.len() - 1
                &&& stops(Stop::Quote, src@[close + 1])
                &&& forall|j: int| 1 <= j < close + 1 ==> !stops(Stop::Quote, #[trigger] src@[j])
                &&& instructions(final(stack)@) == instructions(old(stack)@).push(
                    Instruction::Value(Value::Text(word)),
                )
                &&& *final(i) == *old(i) + close + 1
                &&& newlines(word) == 0 ==> *final(line_height) == *old(line_height)
                    && *final(line_width) == *old(line_width)
                &&& newlines(word) != 0 ==> *final(line_height) == advanced(
                    *old(line_height),
                    newlines(word) as int,
                ) && *final(line_width) == 0
            },
            None => {
                &&& res is Err
                &&& res->Err_0@ == unterminated()
                &&& forall|j: int| 1 <= j < src@.len() ==> !stops(Stop::Quote, #[trigger] src@[j])
                &&& instructions(final(stack)@) == instructions(old(stack)@)
                &&& *final(i) == *old(i)
                &&& *final(line_height) == *old(line_height)
                &&& *final(line_width) == *old(line_width)
            },
        },
{
    let rest = slice_subrange(src, 1, src.len());
    let word_end = find_stop(rest, Stop::Quote);
    proof {
        assert forall|j: int| 1 <= j < word_end + 1 implies !stops(
            Stop::Quote,
            #[trigger] src@[j],
        ) by {
            assert(src@[j] == rest@[j - 1]);
        }
    }
    if word_end >= rest.len() {
        return Err(
            ParsingError::ExtractionError {
                what: "String".to_string(),
                reason: "Could not find end of string.".to_string(),
            },
        );
    }
    let word = slice_subrange(src, 1, word_end + 1);
    let lines = count(word, word.len(), '\n');
    proof {
        assert(word@.take(word@.len() as int) =~= word@);
    }
    if lines != 0 {
        *line_height = advance(*line_height, lines);
        *line_width = 0;
    }
    let entry = Stack::Value(ValueType::Text(text_of(word)));
    stack.push(entry);
    *i += word_end + 1;
    Ok(())
}

/// Registers a macro: the last entry of `stack` is the text that names it, the one
/// before it the scope that it stands for. Both leave `stack`.
///
/// With fewer than two entries nothing changes and the registration fails. An entry
/// of the wrong kind in either slot fails it too; what was looked at has then left
/// `stack`.
pub fn register_macro(stack: &mut Vec<Stack>, user_definitions: &mut Definitions) -> (res: Result<
    (),
    ParsingError,
>)
    ensures
        instructions(final(stack)@) == registered_macro(
            instructions(old(stack)@),
            old(user_definitions)@,
        ).output,
        final(user_definitions)@ == registered_macro(
            instructions(old(stack)@),
            old(user_definitions)@,
        ).definitions,
        match res {
            Ok(_) => registered_macro(instructions(old(stack)@), old(user_definitions)@).fault
                is None,
            Err(error) => registered_macro(instructions(old(stack)@), old(user_definitions)@).fault
                == Some(error@),
        },
{
    if stack.len() < 2 {
        return Err(
            ParsingError::RegistrationError {
                what: "Macro".to_string(),
                reason: "Not enough arguments.".to_string(),
            },
        );
    }
    match stack.pop().unwrap() {
        Stack::Value(ValueType::Text(name)) => match stack.pop().unwrap() {
            Stack::Value(ValueType::Scope(contents)) => {
                user_definitions.insert(name, contents);
                Ok(())
            },
            val => Err(ParsingError::MismatchedTypes { expected: "Scope".to_string(), got: val }),
        },
        val => Err(ParsingError::MismatchedTypes { expected: "Text".to_string(), got: val }),
    }
}

/// Registers a constant: the last entry of `stack` is the text that names it, the
/// one before it the literal that it stands for. Both leave `stack`.
///
/// With fewer than two entries nothing changes and the registration fails. An entry
/// of the wrong kind in either slot fails it too; what was looked at has then left
/// `stack`.
pub fn register_constant(stack: &mut Vec<Stack>, user_definitions: &mut Definitions) -> (res:
    Result<(), ParsingError>)
    ensures
        instructions(final(stack)@) == registered_constant(
            instructions(old(stack)@),
            old(user_definitions)@,
        ).output,
        final(user_definitions)@ == registered_constant(
            instructions(old(stack)@),
            old(user_definitions)@,
        ).definitions,
        match res {
            Ok(_) => registered_constant(instructions(old(stack)@), old(user_definitions)@).fault
                is None,
            Err(error) => registered_constant(
                instructions(old(stack)@),
                old(user_definitions)@,
            ).fault == Some(error@),
        },
{
    if stack.len() < 2 {
        return Err(
            ParsingError::RegistrationError {
                what: "Constant".to_string(),
                reason: "Not enough arguments.".to_string(),
            },
        );
    }
    match stack.pop().unwrap() {
        Stack::Value(ValueType::Text(name)) => match stack.pop().unwrap() {
            Stack::Operation(operation) => Err(
                ParsingError::MismatchedTypes {
                    expected: "Value".to_string(),
                    got: Stack::Operation(operation),
                },
            ),
            constant => {
                let mut body: Vec<Stack> = Vec::new();
                body.push(constant);
                proof {
                    assert(instructions(body@) =~= seq![constant@]);
                }
                user_definitions.insert(name, body);
                Ok(())
            },
        },
        val => Err(ParsingError::MismatchedTypes { expected: "Text".to_string(), got: val }),
    }
}

/// Puts the entries of `body` at the end of `stack`, in order.
pub fn splice(stack: &mut Vec<Stack>, body: Vec<Stack>)
    ensures
        instructions(final(stack)@) == instructions(old(stack)@) + instructions(body@),
{
    let mut body = body;
    stack.append(&mut body);
}

/// Reads the word that begins `src` and does what it stands for.
///
/// The word runs up to the next space, tab, carriage return or line feed; the
/// cursor moves to its last character. An operator's name comes first: `macro` and
/// `const` register a definition out of the last two entries of `stack`, any other
/// operator joins `stack`. A defined name has its whole program copied to the end of
/// `stack`. `true` and `false` are the two boolean literals. Any other word is a
/// failure.
pub fn keyword(
    src: &[char],
    stack: &mut Vec<Stack>,
    i: &mut usize,
    user_definitions: &mut Definitions,
) -> (res: Result<(), ParsingError>)
    requires
        src@.len() >= 1,
        !stops(Stop::Blank, src@[0]),
        *old(i) + src@.len() <= usize::MAX,
    ensures
        1 <= first_stop(src@, Stop::Blank) <= src@.len(),
        forall|j: int|
            0 <= j < first_stop(src@, Stop::Blank) ==> !stops(Stop::Blank, #[trigger] src@[j]),
        first_stop(src@, Stop::Blank) < src@.len() ==> stops(
            Stop::Blank,
            src@[first_stop(src@, Stop::Blank)],
        ),
        *final(i) == *old(i) + first_stop(src@, Stop::Blank) - 1,
        instructions(final(stack)@) == resolved(
            src@.take(first_stop(src@, Stop::Blank)),
            instructions(old(stack)@),
            old(user_definitions)@,
        ).output,
        final(user_definitions)@ == resolved(
            src@.take(first_stop(src@, Stop::Blank)),
            instructions(old(stack)@),
            old(user_definitions)@,
        ).definitions,
        match res {
            Ok(_) => resolved(
                src@.take(first_stop(src@, Stop::Blank)),
                instructions(old(stack)@),
                old(user_definitions)@,
            ).fault is None,
            Err(error) => resolved(
                src@.take(first_stop(src@, Stop::Blank)),
                instructions(old(stack)@),
                old(user_definitions)@,
            ).fault == Some(error@),
        },
{
    let presumable_keyword_index = find_stop(src, Stop::Blank);
    *i += presumable_keyword_index - 1;
    let presumable_keyword = slice_subrange(src, 0, presumable_keyword_index);
    match find_operator(presumable_keyword) {
        Some(OperationType::Macro) => register_macro(stack, user_definitions),
        Some(OperationType::Const) => register_constant(stack, user_definitions),
        Some(operation) => {
            let entry = Stack::Operation(operation);
            stack.push(entry);
            Ok(())
        },
        None => {
            let name = text_of(presumable_keyword);
            match user_definitions.body_of(&name) {
                Some(function) => {
                    splice(stack, function);
                    Ok(())
                },
                None => {
                    if spells(presumable_keyword, "true") {
                        let entry = Stack::Value(ValueType::Bool(true));
                        stack.push(entry);
                        Ok(())
                    } else if spells(presumable_keyword, "false") {
                        let entry = Stack::Value(ValueType::Bool(false));
                        stack.push(entry);
                        Ok(())
                    } else {
                        let mut reason = "Invalid keyword: `".to_string();
                        reason.append(name.as_str());
                        reason.append("`.");
                        Err(ParsingError::KeywordError { reason })
                    }
                },
            }
        },
    }
}

/// Parses the scope that begins `src` with its `{` and returns its program.
///
/// The scope ends with the `}` that pairs with its `{`, nested scopes pairing off
/// among themselves; a scope that is never closed runs to the end of `src`. What
/// stands strictly between the braces is parsed as a text of its own, with the line
/// and column counters and the definitions of the surrounding text. The cursor
/// moves past the closing brace. A failure inside the scope fails the scope, and the
/// cursor stays.
pub fn scope(
    src: &[char],
    i: &mut usize,
    line_width: &mut usize,
    line_height: &mut usize,
    user_definitions: &mut Definitions,
) -> (res: Result<Vec<Stack>, ParsingError>)
    requires
        src@.len() >= 1,
        *old(i) + src@.len() + 2 <= usize::MAX,
    ensures
        ({
            let inside = scoped(
                src@,
                Parse {
                    output: Seq::empty(),
                    line_height: *old(line_height),
                    line_width: *old(line_width),
                    definitions: old(user_definitions)@,
                },
            );
            &&& *final(line_height) == inside.state.line_height
            &&& *final(line_width) == inside.state.line_width
            &&& final(user_definitions)@ == inside.state.definitions
            &&& match res {
                Ok(body) => {
                    &&& inside.fault is None
                    &&& instructions(body@) == inside.state.output
                    &&& *final(i) == *old(i) + closing_bracket(src@.skip(1)) + 1
                },
                Err(error) => inside.fault == Some(error@) && *final(i) == *old(i),
            }
        }),
    decreases src@.len(), 0int,
{
    let rest = slice_subrange(src, 1, src.len());
    let scope_end = find_closing_bracket(rest);
    let inner = slice_subrange(src, 1, scope_end);
    let mut scopes_stack: Vec<Stack> = Vec::new();
    proof {
        assert(instructions(scopes_stack@) =~= Seq::<Instruction>::empty());
    }
    match fill(inner, &mut scopes_stack, line_height, line_width, user_definitions) {
        Ok(_) => {
            *i += scope_end + 1;
            Ok(scopes_stack)
        },
        Err(error) => Err(error),
    }
}

/// Does one step of the parse: reads what begins `src`, the source from the cursor
/// on, and moves the cursor to the last character of what it read.
pub fn step(
    src: &[char],
    stack: &mut Vec<Stack>,
    i: &mut usize,
    line_height: &mut usize,
    line_width: &mut usize,
    user_definitions: &mut Definitions,
) -> (res: Result<(), ParsingError>)
    requires
        src@.len() >= 1,
        *old(i) + src@.len() + 2 <= usize::MAX,
    ensures
        ({
            let end = unit(
                src@,
                parse_of(*old(stack), *old(line_height), *old(line_width), *old(user_definitions)),
            );
            &&& parse_of(*final(stack), *final(line_height), *final(line_width), *final(user_definitions))
                == end.state
            &&& match res {
                Ok(_) => end.fault is None && *final(i) == *old(i) + reach(src@),
                Err(error) => end.fault == Some(error@),
            }
        }),
    decreases src@.len(), 1int,
{
    let ch = src[0];
    if ch == ' ' || ch == '\r' || ch == '\t' {
        Ok(())
    } else if ch == '\n' {
        *line_height = advance(*line_height, 1);
        *line_width = 0;
        Ok(())
    } else if ch == '/' {
        if 1 < src.len() && src[1] == '*' {
            skip_multiline(src, i, line_height, line_width);
            *i -= 1;
            Ok(())
        } else if 1 < src.len() && src[1] == '/' {
            skip_singleline(src, i);
            Ok(())
        } else {
            let entry = Stack::Operation(OperationType::Div);
            proof {
                lemma_instructions_push(stack@, entry);
            }
            stack.push(entry);
            Ok(())
        }
    } else if looks_like_number(src) {
        number(src, stack, i)
    } else if ch == '"' || ch == '\'' {
        string(src, stack, i, line_height, line_width)
    } else if ch == '{' {
        proof {
            lemma_closing_bracket(src@.skip(1), 0, 0);
        }
        match scope(src, i, line_width, line_height, user_definitions) {
            Ok(body) => {
                let entry = Stack::Value(ValueType::Scope(body));
                proof {
                    lemma_instructions_push(stack@, entry);
                }
                stack.push(entry);
                *i -= 1;
                Ok(())
            },
            Err(error) => Err(error),
        }
    } else {
        keyword(src, stack, i, user_definitions)
    }
}

/// Parses `src` and puts its program at the end of `stack`.
///
/// The text is read character by character, left to right. Blanks are skipped; a
/// line feed counts one line and resets the column; `/*` and `//` begin comments,
/// any other `/` is the division operator; a digit, or `-` before a digit, begins a
/// number; a quote begins a string; `{` begins a scope; anything else begins a word.
/// After each of these the column moves on by what was consumed. The first failure
/// ends the parse: the counters then tell where, and `stack` holds what was built
/// before it.
#[verifier::loop_isolation(false)]
pub fn fill(
    src: &[char],
    stack: &mut Vec<Stack>,
    line_height: &mut usize,
    line_width: &mut usize,
    user_definitions: &mut Definitions,
) -> (res: Result<(), ParsingError>)
    requires
        src@.len() + 3 <= usize::MAX,
    ensures
        ({
            let end = parsed(
                src@,
                0,
                parse_of(*old(stack), *old(line_height), *old(line_width), *old(user_definitions)),
            );
            &&& parse_of(*final(stack), *final(line_height), *final(line_width), *final(user_definitions))
                == end.state
            &&& match res {
                Ok(_) => end.fault is None,
                Err(error) => end.fault == Some(error@),
            }
        }),
    decreases src@.len(), 2int,
{
    let ghost goal = parsed(
        src@,
        0,
        parse_of(*stack, *line_height, *line_width, *user_definitions),
    );
    let mut i: usize = 0;
    while i < src.len()
        invariant
            i <= src@.len() + 3,
            parsed(src@, i as int, parse_of(*stack, *line_height, *line_width, *user_definitions))
                == goal,
        decreases
                (if i < src@.len() {
                    src@.len() - i
                } else {
                    0
                }),
    {
        let old_i = i;
        let rest = slice_subrange(src, i, src.len());
        proof {
            lemma_reach(rest@);
        }
        match step(rest, stack, &mut i, line_height, line_width, user_definitions) {
            Ok(_) => {},
            Err(error) => {
                return Err(error);
            },
        }
        *line_width = advance(*line_width, (i - old_i) + 1);
        i += 1;
    }
    Ok(())
}

} // verus!

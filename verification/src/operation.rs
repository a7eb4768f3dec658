//! The built-in operators and the words that name them.

use vstd::prelude::*;

verus! {

/// The closed set of built-in operators.
///
/// `Macro` and `Const` exist only while a program is being parsed: they register a
/// definition and never survive into a finished program.
#[derive(Debug, Clone, Copy, PartialEq, Eq, Structural)]
pub enum OperationType {
    Add,
    Sub,
    Mul,
    Div,
    Mod,
    Pow,
    Print,
    PrintDebug,
    PrintDebugStack,
    If,
    Lt,
    Gt,
    Eq,
    Leq,
    Geq,
    Or,
    And,
    For,
    While,
    Switch,
    Reverse,
    Pop,
    Not,
    Copy,
    Println,
    Macro,
    Const,
}

/// The operator that the source word `word` names, if it names one.
pub open spec fn operator_named(word: Seq<char>) -> Option<OperationType> {
    if word == "+"@ {
        Some(OperationType::Add)
    } else if word == "-"@ {
        Some(OperationType::Sub)
    } else if word == "*"@ {
        Some(OperationType::Mul)
    } else if word == "/"@ {
        Some(OperationType::Div)
    } else if word == "%"@ {
        Some(OperationType::Mod)
    } else if word == "^"@ {
        Some(OperationType::Pow)
    } else if word == "if"@ {
        Some(OperationType::If)
    } else if word == "for"@ {
        Some(OperationType::For)
    } else if word == "while"@ {
        Some(OperationType::While)
    } else if word == "<"@ {
        Some(OperationType::Lt)
    } else if word == ">"@ {
        Some(OperationType::Gt)
    } else if word == "=="@ {
        Some(OperationType::Eq)
    } else if word == "<="@ {
        Some(OperationType::Leq)
    } else if word == ">="@ {
        Some(OperationType::Geq)
    } else if word == "||"@ {
        Some(OperationType::Or)
    } else if word == "&&"@ {
        Some(OperationType::And)
    } else if word == "!"@ {
        Some(OperationType::Not)
    } else if word == "print"@ {
        Some(OperationType::Print)
    } else if word == "println"@ {
        Some(OperationType::Println)
    } else if word == "print_debug"@ {
        Some(OperationType::PrintDebug)
    } else if word == "print_debug_stack"@ {
        Some(OperationType::PrintDebugStack)
    } else if word == "switch"@ {
        Some(OperationType::Switch)
    } else if word == "reverse"@ {
        Some(OperationType::Reverse)
    } else if word == "pop"@ {
        Some(OperationType::Pop)
    } else if word == "copy"@ {
        Some(OperationType::Copy)
    } else if word == "macro"@ {
        Some(OperationType::Macro)
    } else if word == "const"@ {
        Some(OperationType::Const)
    } else {
        None
    }
}

/// Tells whether the characters of `word` are exactly those of `literal`.
pub fn spells(word: &[char], literal: &str) -> (same: bool)
    ensures
        same == (word@ == literal@),
{
    let n = literal.unicode_len();
    if word.len() != n {
        return false;
    }
    let mut k: usize = 0;
    while k < n
        invariant
            n == literal@.len(),
            word@.len() == n,
            k <= n,
            forall|j: int| 0 <= j < k ==> word@[j] == literal@[j],
        decreases n - k,
    {
        if word[k] != literal.get_char(k) {
            return false;
        }
        k += 1;
    }
    assert(word@ =~= literal@);
    true
}

/// Looks `word` up among the built-in operator names.
pub fn find_operator(word: &[char]) -> (found: Option<OperationType>)
    ensures
        found == operator_named(word@),
{
    if spells(word, "+") {
        Some(OperationType::Add)
    } else if spells(word, "-") {
        Some(OperationType::Sub)
    } else if spells(word, "*") {
        Some(OperationType::Mul)
    } else if spells(word, "/") {
        Some(OperationType::Div)
    } else if spells(word, "%") {
        Some(OperationType::Mod)
    } else if spells(word, "^") {
        Some(OperationType::Pow)
    } else if spells(word, "if") {
        Some(OperationType::If)
    } else if spells(word, "for") {
        Some(OperationType::For)
    } else if spells(word, "while") {
        Some(OperationType::While)
    } else if spells(word, "<") {
        Some(OperationType::Lt)
    } else if spells(word, ">") {
        Some(OperationType::Gt)
    } else if spells(word, "==") {
        Some(OperationType::Eq)
    } else if spells(word, "<=") {
        Some(OperationType::Leq)
    } else if spells(word, ">=") {
        Some(OperationType::Geq)
    } else if spells(word, "||") {
        Some(OperationType::Or)
    } else if spells(word, "&&") {
        Some(OperationType::And)
    } else if spells(word, "!") {
        Some(OperationType::Not)
    } else if spells(word, "print") {
        Some(OperationType::Print)
    } else if spells(word, "println") {
        Some(OperationType::Println)
    } else if spells(word, "print_debug") {
        Some(OperationType::PrintDebug)
    } else if spells(word, "print_debug_stack") {
        Some(OperationType::PrintDebugStack)
    } else if spells(word, "switch") {
        Some(OperationType::Switch)
    } else if spells(word, "reverse") {
        Some(OperationType::Reverse)
    } else if spells(word, "pop") {
        Some(OperationType::Pop)
    } else if spells(word, "copy") {
        Some(OperationType::Copy)
    } else if spells(word, "macro") {
        Some(OperationType::Macro)
    } else if spells(word, "const") {
        Some(OperationType::Const)
    } else {
        None
    }
}

} // verus!

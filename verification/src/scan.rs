//! Character-level scanning: finding where a token, a comment or a scope ends.

use vstd::prelude::*;

verus! {

/// Classes of characters that end something in the source text.
#[derive(Debug, Clone, Copy, PartialEq, Eq, Structural)]
pub enum Stop {
    /// A line feed: ends a line comment.
    Newline,
    /// A double or a single quote: ends a string literal.
    Quote,
    /// A space, a tab, a carriage return or a line feed: ends a word.
    Blank,
    /// Anything but a digit, `-`, `_` and `.`: ends a number.
    NotNumeric,
}

/// One of the ten ASCII digits.
pub open spec fn is_digit(ch: char) -> bool {
    '0' <= ch <= '9'
}

/// Whether `ch` belongs to the class `stop`.
pub open spec fn stops(stop: Stop, ch: char) -> bool {
    match stop {
        Stop::Newline => ch == '\n',
        Stop::Quote => ch == '"' || ch == '\'',
        Stop::Blank => ch == ' ' || ch == '\t' || ch == '\r' || ch == '\n',
        Stop::NotNumeric => !(is_digit(ch) || ch == '-' || ch == '_' || ch == '.'),
    }
}

/// The least index at or after `from` whose character belongs to `stop`; the
/// length of `text` where there is none.
pub open spec fn first_stop_from(text: Seq<char>, stop: Stop, from: int) -> int
    decreases text.len() - from,
{
    if from < 0 || from >= text.len() {
        text.len() as int
    } else if stops(stop, text[from]) {
        from
    } else {
        first_stop_from(text, stop, from + 1)
    }
}

/// The least index whose character belongs to `stop`; the length of `text` where
/// there is none.
pub open spec fn first_stop(text: Seq<char>, stop: Stop) -> int {
    first_stop_from(text, stop, 0)
}

/// The least index at or after `from` where `*/` begins; the length of `text`
/// where there is none.
pub open spec fn comment_close_from(text: Seq<char>, from: int) -> int
    decreases text.len() - from,
{
    if from < 0 || from >= text.len() {
        text.len() as int
    } else if text[from] == '*' && from + 1 < text.len() && text[from + 1] == '/' {
        from
    } else {
        comment_close_from(text, from + 1)
    }
}

/// Where the block comment that begins `text` with its `/*` is closed: the least
/// index after these two characters where `*/` begins; the length of `text` where
/// there is none.
pub open spec fn comment_close(text: Seq<char>) -> int {
    comment_close_from(text, 2)
}

/// How many times `ch` occurs in `text`.
pub open spec fn occurrences(text: Seq<char>, ch: char) -> nat
    decreases text.len(),
{
    if text.len() == 0 {
        0
    } else {
        occurrences(text.drop_last(), ch) + if text.last() == ch {
            1nat
        } else {
            0nat
        }
    }
}

/// How many line feeds `text` holds.
pub open spec fn newlines(text: Seq<char>) -> nat {
    occurrences(text, '\n')
}

/// `{` counted up and `}` counted down over `text`.
pub open spec fn depth(text: Seq<char>) -> int
    decreases text.len(),
{
    if text.len() == 0 {
        0
    } else {
        depth(text.drop_last()) + if text.last() == '{' {
            1int
        } else if text.last() == '}' {
            -1int
        } else {
            0int
        }
    }
}

/// Whether index `k` holds the `}` that closes the scope inside which `text` begins:
/// the braces before it are balanced.
pub open spec fn closes_at(text: Seq<char>, k: int) -> bool {
    0 <= k < text.len() && text[k] == '}' && depth(text.take(k)) == 0
}

/// Scanning from `from` with `open` scopes entered and not yet left: one more than
/// the index of the `}` that finds none open; one more than the length of `text`
/// where there is none.
pub open spec fn closing_from(text: Seq<char>, from: int, open: int) -> int
    decreases text.len() - from,
{
    if from < 0 || from >= text.len() {
        text.len() as int + 1
    } else if text[from] == '{' {
        closing_from(text, from + 1, open + 1)
    } else if text[from] == '}' {
        if open == 0 {
            from + 1
        } else {
            closing_from(text, from + 1, open - 1)
        }
    } else {
        closing_from(text, from + 1, open)
    }
}

/// One more than the index of the `}` that closes the scope inside which `text`
/// begins; one more than the length of `text` where the scope is never closed.
pub open spec fn closing_bracket(text: Seq<char>) -> int {
    closing_from(text, 0, 0)
}

/// Whether a number begins at the start of `text`: a digit, or `-` and a digit.
pub open spec fn is_number_start(text: Seq<char>) -> bool {
    let first = if text.len() > 0 {
        text[0]
    } else {
        ' '
    };
    let second = if text.len() > 1 {
        text[1]
    } else {
        ' '
    };
    is_digit(first) || (first == '-' && is_digit(second))
}

/// `count` increased by `by`, held at the largest `usize` where the sum exceeds it.
pub open spec fn advanced(count: usize, by: int) -> usize {
    if count + by > usize::MAX {
        usize::MAX
    } else {
        (count + by) as usize
    }
}

/// What [`first_stop_from`] returns lies in the text or at its end, nothing before
/// it belongs to the class, and the character there does.
pub proof fn lemma_first_stop(text: Seq<char>, stop: Stop, from: int)
    requires
        0 <= from <= text.len(),
    ensures
        from <= first_stop_from(text, stop, from) <= text.len(),
        forall|j: int| from <= j < first_stop_from(text, stop, from) ==> !stops(stop, #[trigger] text[j]),
        first_stop_from(text, stop, from) < text.len() ==> stops(
            stop,
            text[first_stop_from(text, stop, from)],
        ),
    decreases text.len() - from,
{
    if from < text.len() && !stops(stop, text[from]) {
        lemma_first_stop(text, stop, from + 1);
    }
}

/// Whether `*/` begins at index `at` of `text`.
pub open spec fn closes_comment(text: Seq<char>, at: int) -> bool {
    0 <= at && at + 1 < text.len() && text[at] == '*' && text[at + 1] == '/'
}

/// What [`comment_close_from`] returns lies in the text or at its end, `*/` begins
/// nowhere before it, and does begin there.
pub proof fn lemma_comment_close(text: Seq<char>, from: int)
    requires
        0 <= from <= text.len(),
    ensures
        from <= comment_close_from(text, from) <= text.len(),
        forall|j: int| from <= j < comment_close_from(text, from) ==> !closes_comment(text, j),
        comment_close_from(text, from) < text.len() ==> closes_comment(
            text,
            comment_close_from(text, from),
        ),
    decreases text.len() - from,
{
    if from < text.len() && !(text[from] == '*' && from + 1 < text.len() && text[from + 1] == '/') {
        lemma_comment_close(text, from + 1);
    }
}

/// Whether `ch` is an ASCII digit.
pub fn digit(ch: char) -> (r: bool)
    ensures
        r == is_digit(ch),
{
    '0' <= ch && ch <= '9'
}

/// Whether `ch` belongs to the class `stop`.
pub fn is_stop(stop: Stop, ch: char) -> (r: bool)
    ensures
        r == stops(stop, ch),
{
    match stop {
        Stop::Newline => ch == '\n',
        Stop::Quote => ch == '"' || ch == '\'',
        Stop::Blank => ch == ' ' || ch == '\t' || ch == '\r' || ch == '\n',
        Stop::NotNumeric => !(digit(ch) || ch == '-' || ch == '_' || ch == '.'),
    }
}

/// The index of the first character of `src` that belongs to `stop`, or the length
/// of `src`.
pub fn find_stop(src: &[char], stop: Stop) -> (at: usize)
    ensures
        at == first_stop(src@, stop),
        at <= src@.len(),
        forall|j: int| 0 <= j < at ==> !stops(stop, #[trigger] src@[j]),
        at < src@.len() ==> stops(stop, src@[at as int]),
{
    proof {
        lemma_first_stop(src@, stop, 0);
    }
    let mut k: usize = 0;
    while k < src.len() && !is_stop(stop, src[k])
        invariant
            k <= src@.len(),
            first_stop_from(src@, stop, k as int) == first_stop(src@, stop),
        decreases src@.len() - k,
    {
        k += 1;
    }
    k
}

/// The index where the block comment that begins `src` with its `/*` is closed: the
/// first index after these two characters where `*/` begins, or the length of
/// `src`.
pub fn find_comment_close(src: &[char]) -> (at: usize)
    ensures
        at == comment_close(src@),
        at <= src@.len(),
        forall|j: int| 2 <= j < at ==> !closes_comment(src@, j),
        at < src@.len() ==> 2 <= at && closes_comment(src@, at as int),
{
    if src.len() < 2 {
        return src.len();
    }
    proof {
        lemma_comment_close(src@, 2);
    }
    let mut k: usize = 2;
    while k < src.len() && !(src[k] == '*' && k + 1 < src.len() && src[k + 1] == '/')
        invariant
            2 <= k <= src@.len(),
            comment_close_from(src@, k as int) == comment_close(src@),
        decreases src@.len() - k,
    {
        k += 1;
    }
    k
}

/// The number of times `ch` occurs among the first `upto` characters of `src`.
pub fn count(src: &[char], upto: usize, ch: char) -> (count: usize)
    requires
        upto <= src@.len(),
    ensures
        count == occurrences(src@.take(upto as int), ch),
        count <= upto,
{
    let mut count: usize = 0;
    let mut k: usize = 0;
    while k < upto
        invariant
            k <= upto <= src@.len(),
            count == occurrences(src@.take(k as int), ch),
            count <= k,
        decreases upto - k,
    {
        proof {
            assert(src@.take(k + 1).drop_last() =~= src@.take(k as int));
        }
        if src[k] == ch {
            count += 1;
        }
        k += 1;
    }
    count
}

/// `count` plus `by`, held at the largest `usize`.
pub fn advance(count: usize, by: usize) -> (r: usize)
    ensures
        r == advanced(count, by as int),
{
    if by > usize::MAX - count {
        usize::MAX
    } else {
        count + by
    }
}

/// Gives the position just past the `}` that closes the scope inside which `src`
/// begins: nested `{` and `}` pair off, and the first `}` left without a partner is
/// the one. An unclosed scope runs to the end: the result is then one more than
/// the length of `src`.
pub fn find_closing_bracket(src: &[char]) -> (end: usize)
    requires
        src@.len() < usize::MAX,
    ensures
        end == closing_bracket(src@),
        1 <= end <= src@.len() + 1,
        end <= src@.len() ==> closes_at(src@, end - 1),
        forall|k: int| 0 <= k < end - 1 ==> !closes_at(src@, k),
{
    let mut open_brackets: usize = 0;
    let mut k: usize = 0;
    while k < src.len()
        invariant
            k <= src@.len() < usize::MAX,
            open_brackets == depth(src@.take(k as int)),
            open_brackets <= k,
            closing_from(src@, k as int, open_brackets as int) == closing_bracket(src@),
            forall|j: int| 0 <= j < k ==> !closes_at(src@, j),
        decreases src@.len() - k,
    {
        proof {
            assert(src@.take(k + 1).drop_last() =~= src@.take(k as int));
        }
        let ch = src[k];
        if ch == '{' {
            open_brackets += 1;
        } else if ch == '}' {
            if open_brackets == 0 {
                return k + 1;
            } else {
                open_brackets -= 1;
            }
        }
        k += 1;
    }
    src.len() + 1
}

/// Tells whether a number begins at the start of `src`: a digit, or `-` followed
/// by a digit.
pub fn looks_like_number(src: &[char]) -> (r: bool)
    ensures
        r == is_number_start(src@),
{
    let ch1 = if src.len() > 0 {
        src[0]
    } else {
        ' '
    };
    let ch2 = if src.len() > 1 {
        src[1]
    } else {
        ' '
    };
    digit(ch1) || (ch1 == '-' && digit(ch2))
}

/// Skips a block comment. `src` begins with its `/*`; the comment ends with the
/// first `*/` after these, or runs to the end of `src` where there is none. The cursor moves to the
/// second character past the place where `*/` begins; each line feed inside the
/// comment counts one line, and a comment that holds any resets the column.
pub fn skip_multiline(src: &[char], i: &mut usize, line_height: &mut usize, line_width: &mut usize)
    requires
        *old(i) + src@.len() + 2 <= usize::MAX,
    ensures
        *final(i) == *old(i) + comment_close(src@) + 2,
        0 <= comment_close(src@) <= src@.len(),
        forall|j: int| 2 <= j < comment_close(src@) ==> !closes_comment(src@, j),
        comment_close(src@) < src@.len() ==> closes_comment(src@, comment_close(src@)),
        newlines(src@.take(comment_close(src@))) == 0 ==> *final(line_height) == *old(line_height)
            && *final(line_width) == *old(line_width),
        newlines(src@.take(comment_close(src@))) != 0 ==> *final(line_height) == advanced(
            *old(line_height),
            newlines(src@.take(comment_close(src@))) as int,
        ) && *final(line_width) == 0,
{
    let comment_end = find_comment_close(src);
    let lines = count(src, comment_end, '\n');
    if lines != 0 {
        *line_height = advance(*line_height, lines);
        *line_width = 0;
    }
    *i += comment_end + 2;
}

/// Skips a line comment. `src` begins at its first `/`; the comment ends before the
/// next line feed, or at the end of `src`. The cursor moves to the last character
/// of the comment.
pub fn skip_singleline(src: &[char], i: &mut usize)
    requires
        src@.len() > 0,
        src@[0] != '\n',
        *old(i) + src@.len() <= usize::MAX,
    ensures
        *final(i) == *old(i) + first_stop(src@, Stop::Newline) - 1,
        1 <= first_stop(src@, Stop::Newline) <= src@.len(),
        forall|j: int| 0 <= j < first_stop(src@, Stop::Newline) ==> #[trigger] src@[j] != '\n',
        first_stop(src@, Stop::Newline) < src@.len() ==> src@[first_stop(src@, Stop::Newline)]
            == '\n',
{
    let comment_end = find_stop(src, Stop::Newline);
    *i += comment_end - 1;
}

} // verus!

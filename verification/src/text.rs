//! Building owned texts out of characters.

use vstd::prelude::*;

verus! {

/// `String::push`: the text afterwards is the text before with `ch` at its end.
#[verifier::external_body]
pub(crate) fn push_char(text: &mut String, ch: char)
    ensures
        final(text)@ == old(text)@.push(ch),
{
    text.push(ch);
}

/// The text whose characters are those of `chars`, in order.
pub fn text_of(chars: &[char]) -> (text: String)
    ensures
        text@ == chars@,
{
    let mut text = String::new();
    let mut k: usize = 0;
    while k < chars.len()
        invariant
            k <= chars@.len(),
            text@ == chars@.take(k as int),
        decreases chars@.len() - k,
    {
        push_char(&mut text, chars[k]);
        k += 1;
    }
    text
}

} // verus!

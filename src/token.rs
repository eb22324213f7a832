use vstd::prelude::*;
use crate::types::Position;

verus! {

/// One lexeme of the source with its position.
#[derive(Debug)]
pub struct Token {
    pub word: String,
    pub pos: Position,
}

/// Whether `char::is_alphabetic` holds of a character.
pub uninterp spec fn alphabetic(c: char) -> bool;

/// Whether `char::is_alphanumeric` holds of a character.
pub uninterp spec fn alphanumeric(c: char) -> bool;

/// Relies on char::is_alphabetic: a property of the character alone.
#[verifier::external_body]
fn is_alphabetic(c: char) -> (r: bool)
    ensures
        r == alphabetic(c),
{
    c.is_alphabetic()
}

/// Relies on char::is_alphanumeric: a property of the character alone.
#[verifier::external_body]
fn is_alphanumeric(c: char) -> (r: bool)
    ensures
        r == alphanumeric(c),
{
    c.is_alphanumeric()
}

/// A character that may stand at position `i` of a variable name: a letter
/// or an underscore first, then letters, digits or underscores.
pub open spec fn name_char(c: char, i: int) -> bool {
    c == '_' || (if i == 0 { alphabetic(c) } else { alphanumeric(c) })
}

pub open spec fn is_variable_name(w: Seq<char>) -> bool {
    forall|i: int| 0 <= i < w.len() ==> #[trigger] name_char(w[i], i)
}

/// Decides whether a word has the shape of a variable name.
pub fn variable_name(word: &str) -> (r: bool)
    ensures
        r == is_variable_name(word@),
{
    let n = word.unicode_len();
    let mut i: usize = 0;
    while i < n
        invariant
            n == word@.len(),
            i <= n,
            forall|k: int| 0 <= k < i ==> #[trigger] name_char(word@[k], k),
        decreases n - i,
    {
        let c = word.get_char(i);
        let ok = if c == '_' {
            true
        } else if i == 0 {
            is_alphabetic(c)
        } else {
            is_alphanumeric(c)
        };
        if !ok {
            assert(!name_char(word@[i as int], i as int));
            return false;
        }
        i += 1;
    }
    true
}

} // verus!

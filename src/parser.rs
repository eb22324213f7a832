use vstd::prelude::*;
use crate::scope::SymbolTable;
use crate::token::{is_variable_name, variable_name, Token};
use crate::types::{Failure, Position};

verus! {

/// The state of one parse: the tokens, the index of the current one, and
/// the symbol table of the compilation.
pub struct ParserMetadata {
    pub tokens: Vec<Token>,
    pub index: usize,
    pub table: SymbolTable,
}

impl ParserMetadata {
    pub open spec fn wf(&self) -> bool {
        self.table@.wf()
    }

    /// The position of the current token; none at the end of input.
    pub open spec fn current_pos(&self) -> Option<Position> {
        if self.index < self.tokens.len() {
            Some(self.tokens@[self.index as int].pos)
        } else {
            None
        }
    }

    /// The word of the current token; none at the end of input.
    pub open spec fn current_word(&self) -> Option<Seq<char>> {
        if self.index < self.tokens.len() {
            Some(self.tokens@[self.index as int].word@)
        } else {
            None
        }
    }

    /// A parse at the start of `tokens`, with only the top-level scope open.
    pub fn new(tokens: Vec<Token>) -> (r: ParserMetadata)
        ensures
            r.wf(),
            r.tokens@ == tokens@,
            r.index == 0,
            r.table@.scopes.len() == 1,
            r.table@.vars.len() == 0,
            r.table@.next_id == 0,
    {
        ParserMetadata { tokens, index: 0, table: SymbolTable::new() }
    }

    pub fn get_current_position(&self) -> (r: Option<Position>)
        ensures
            r == self.current_pos(),
    {
        if self.index < self.tokens.len() {
            Some(self.tokens[self.index].pos)
        } else {
            None
        }
    }
}

/// Consumes the current token when it has the shape of a variable name, and
/// returns its word.
pub fn variable(meta: &mut ParserMetadata) -> (r: Result<String, Failure>)
    ensures
        final(meta).tokens == old(meta).tokens,
        final(meta).table == old(meta).table,
        match old(meta).current_word() {
            Some(w) if is_variable_name(w) => r matches Ok(s) && s@ == w && final(meta).index
                == old(meta).index + 1,
            _ => r matches Err(Failure::Syntax(p)) && p == old(meta).current_pos() && final(meta).index
                == old(meta).index,
        },
{
    if meta.index < meta.tokens.len() {
        let i = meta.index;
        if variable_name(meta.tokens[i].word.as_str()) {
            meta.index = i + 1;
            return Ok(meta.tokens[i].word.clone());
        }
    }
    Err(Failure::Syntax(meta.get_current_position()))
}

/// Consumes the current token when its word is `text`.
pub fn token(meta: &mut ParserMetadata, text: &str) -> (r: Result<(), Failure>)
    ensures
        final(meta).tokens == old(meta).tokens,
        final(meta).table == old(meta).table,
        if old(meta).current_word() == Some(text@) {
            r is Ok && final(meta).index == old(meta).index + 1
        } else {
            r matches Err(Failure::Syntax(p)) && p == old(meta).current_pos() && final(meta).index
                == old(meta).index
        },
{
    if meta.index < meta.tokens.len() {
        let i = meta.index;
        let expected = String::from_str(text);
        if meta.tokens[i].word == expected {
            meta.index = i + 1;
            return Ok(());
        }
    }
    Err(Failure::Syntax(meta.get_current_position()))
}

} // verus!

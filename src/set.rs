use vstd::prelude::*;
use crate::naming::{mangled_name, write_form};
use crate::parser::{token, variable, ParserMetadata};
use crate::scope::write_outcome;
use crate::token::is_variable_name;
use crate::types::{Expr, Failure, Type};

verus! {

/// An assignment `name = value`.
///
/// Parsing comes in two steps: `parse` consumes the name and the `=`, the
/// expression language then parses the value from the tokens that follow,
/// and `resolve` binds the name to it. The value is parsed before the write
/// is resolved, so a read of the name inside the value sees the binding as
/// it was before the assignment.
#[derive(Debug)]
pub struct VariableSet {
    pub name: String,
    pub value: Expr,
    /// The global id of the binding written, when it is promoted.
    pub global_id: Option<usize>,
}

impl VariableSet {
    /// An unresolved assignment.
    pub fn new() -> (r: VariableSet)
        ensures
            r.name@ == Seq::<char>::empty(),
            r.value.kind == Type::Null,
            r.value.code@ == Seq::<char>::empty(),
            r.global_id is None,
    {
        VariableSet { name: String::new(), value: Expr::new(), global_id: None }
    }

    /// Parses the target of the assignment: a variable name, then `=`.
    pub fn parse(&mut self, meta: &mut ParserMetadata) -> (r: Result<(), Failure>)
        ensures
            final(meta).tokens == old(meta).tokens,
            final(meta).table == old(meta).table,
            final(self).value == old(self).value,
            final(self).global_id == old(self).global_id,
            match old(meta).current_word() {
                Some(w) if is_variable_name(w) => {
                    let next = old(meta).index + 1;
                    &&& final(self).name@ == w
                    &&& if next < old(meta).tokens.len() && old(meta).tokens@[next].word@ == seq!['='] {
                        r is Ok && final(meta).index == next + 1
                    } else {
                        r matches Err(Failure::Syntax(p)) && final(meta).index == next && p == (if next
                            < old(meta).tokens.len() {
                            Some(old(meta).tokens@[next].pos)
                        } else {
                            None
                        })
                    }
                },
                _ => {
                    &&& r matches Err(Failure::Syntax(p)) && p == old(meta).current_pos()
                    &&& final(meta).index == old(meta).index
                    &&& final(self).name == old(self).name
                },
            },
    {
        match variable(meta) {
            Ok(name) => {
                self.name = name;
                proof {
                    reveal_strlit("=");
                    assert("="@ =~= seq!['=']);
                }
                token(meta, "=")
            },
            Err(e) => Err(e),
        }
    }

    /// Binds the parsed name to `value`: the write resolves against the
    /// scopes of `meta`, creating the binding or giving an active one the
    /// value's type, and the node keeps the binding's global id.
    pub fn resolve(&mut self, meta: &mut ParserMetadata, value: Expr)
        requires
            old(meta).wf(),
            old(meta).table.next_id < usize::MAX,
        ensures
            final(meta).wf(),
            final(meta).tokens == old(meta).tokens,
            final(meta).index == old(meta).index,
            final(self).name == old(self).name,
            final(self).value == value,
            (final(meta).table@, final(self).global_id) == write_outcome(old(meta).table@, old(self).name@, value.kind),
    {
        let kind = value.kind;
        self.value = value;
        self.global_id = meta.table.resolve_write(&self.name, kind);
    }

    /// Renders the assignment: the binding's target name, `=`, and the
    /// rendered value.
    pub fn translate(&self) -> (r: String)
        ensures
            r@ == write_form(self.name@, self.global_id, self.value.code@),
    {
        let mut out = mangled_name(&self.name, self.global_id);
        proof {
            reveal_strlit("=");
        }
        out.append("=");
        let code = self.value.translate();
        out.append(code.as_str());
        assert(out@ =~= write_form(self.name@, self.global_id, self.value.code@));
        out
    }
}

} // verus!

use vstd::prelude::*;
use crate::naming::{mangled_name, read_form};
use crate::parser::{variable, ParserMetadata};
use crate::scope::find_last;
use crate::token::is_variable_name;
use crate::types::{Failure, Type};

verus! {

/// A read of a variable in expression position.
#[derive(Debug)]
pub struct VariableGet {
    pub name: String,
    /// The type of the binding that the read resolved to.
    pub kind: Type,
    /// The global id of that binding, when it is promoted.
    pub global_id: Option<usize>,
}

impl VariableGet {
    /// An unresolved read.
    pub fn new() -> (r: VariableGet)
        ensures
            r.name@ == Seq::<char>::empty(),
            r.kind == Type::Null,
            r.global_id is None,
    {
        VariableGet { name: String::new(), kind: Type::Null, global_id: None }
    }

    /// The static type of the read: the type of its binding.
    pub fn get_type(&self) -> (r: Type)
        ensures
            r == self.kind,
    {
        self.kind
    }

    /// Parses a variable name at the current token and resolves it against
    /// the scopes of `meta`. A read of a name with no active binding fails
    /// with `UndefinedVariable` at the name's token.
    pub fn parse(&mut self, meta: &mut ParserMetadata) -> (r: Result<(), Failure>)
        requires
            old(meta).wf(),
        ensures
            final(meta).tokens == old(meta).tokens,
            final(meta).table == old(meta).table,
            match old(meta).current_word() {
                Some(w) if is_variable_name(w) => {
                    &&& final(meta).index == old(meta).index + 1
                    &&& final(self).name@ == w
                    &&& match find_last(old(meta).table@.vars, w) {
                        Some(j) => {
                            &&& r is Ok
                            &&& final(self).kind == old(meta).table@.vars[j].kind
                            &&& final(self).global_id == old(meta).table@.vars[j].global_id
                        },
                        None => {
                            &&& r matches Err(Failure::UndefinedVariable(p, n)) && Some(p)
                                == old(meta).current_pos() && n@ == w
                            &&& final(self).kind == old(self).kind
                            &&& final(self).global_id == old(self).global_id
                        },
                    }
                },
                _ => {
                    &&& r matches Err(Failure::Syntax(p)) && p == old(meta).current_pos()
                    &&& final(meta).index == old(meta).index
                    &&& *final(self) == *old(self)
                },
            },
    {
        match variable(meta) {
            Ok(name) => {
                self.name = name;
                let at = meta.tokens[meta.index - 1].pos;
                match meta.table.resolve_read(&self.name, at) {
                    Ok((global_id, kind)) => {
                        self.global_id = global_id;
                        self.kind = kind;
                        Ok(())
                    },
                    Err(e) => Err(e),
                }
            },
            Err(e) => Err(e),
        }
    }

    /// Renders the read as value substitution of the binding's target name.
    pub fn translate(&self) -> (r: String)
        ensures
            r@ == read_form(self.name@, self.global_id),
    {
        let mut out = String::new();
        proof {
            reveal_strlit("${");
            reveal_strlit("}");
        }
        out.append("${");
        let target = mangled_name(&self.name, self.global_id);
        out.append(target.as_str());
        out.append("}");
        assert(out@ =~= read_form(self.name@, self.global_id));
        out
    }
}

} // verus!

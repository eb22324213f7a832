use vstd::prelude::*;
use crate::types::{Failure, Position, Type};

verus! {

/// How the target runtime executes a scope.
#[derive(Clone, Copy, Debug, PartialEq, Eq, Structural)]
pub enum ScopeKind {
    /// The top level or an ordinary block (a conditional, a loop): it shares
    /// the runtime's flat namespace with the code around it.
    Block,
    /// A block that the runtime runs in a subprocess or a pipeline stage.
    Isolated,
}

/// One active variable.
#[derive(Debug)]
pub struct Binding {
    pub name: String,
    pub kind: Type,
    /// Present when the binding is promoted to a mangled global name.
    pub global_id: Option<usize>,
    /// Index of the owning scope, counted from the outermost.
    pub depth: usize,
}

/// A binding as a mathematical value.
pub struct BindingView {
    pub name: Seq<char>,
    pub kind: Type,
    pub global_id: Option<usize>,
    pub depth: nat,
}

impl View for Binding {
    type V = BindingView;

    open spec fn view(&self) -> BindingView {
        BindingView {
            name: self.name@,
            kind: self.kind,
            global_id: self.global_id,
            depth: self.depth as nat,
        }
    }
}

/// The scope stack of one compilation and its counter of global ids.
///
/// The active bindings are kept in one sequence, ordered by the depth of
/// their scope; closing a scope drops the bindings at its end.
pub struct SymbolTable {
    /// The active scopes, outermost first.
    pub scopes: Vec<ScopeKind>,
    pub vars: Vec<Binding>,
    /// The next global id to hand out; every id handed out so far is smaller.
    pub next_id: usize,
}

/// A symbol table as a mathematical value.
pub struct TableView {
    pub scopes: Seq<ScopeKind>,
    pub vars: Seq<BindingView>,
    pub next_id: nat,
}

impl View for SymbolTable {
    type V = TableView;

    open spec fn view(&self) -> TableView {
        TableView {
            scopes: self.scopes@,
            vars: self.vars@.map_values(|b: Binding| b@),
            next_id: self.next_id as nat,
        }
    }
}

/// The position of the innermost active binding of `name`: the last one in
/// scope order.
pub open spec fn find_last(vars: Seq<BindingView>, name: Seq<char>) -> Option<int>
    decreases vars.len(),
{
    if vars.len() == 0 {
        None
    } else if vars.last().name == name {
        Some(vars.len() - 1)
    } else {
        find_last(vars.drop_last(), name)
    }
}

/// What a lookup yields for a binding: its global id and its type.
pub open spec fn outcome(b: BindingView) -> (Option<usize>, Type) {
    (b.global_id, b.kind)
}

/// The table and the global id after the binding at `j` takes type `kind`.
pub open spec fn update_outcome(t: TableView, j: int, kind: Type) -> (TableView, Option<usize>) {
    let b = t.vars[j];
    (
        TableView {
            vars: t.vars.update(j, BindingView { name: b.name, kind, global_id: b.global_id, depth: b.depth }),
            ..t
        },
        b.global_id,
    )
}

/// The table and the global id after a new binding of `name` enters the
/// innermost scope, with the next id when that scope promotes.
pub open spec fn create_outcome(t: TableView, name: Seq<char>, kind: Type) -> (TableView, Option<usize>) {
    let id = if t.promotes() { Some(t.next_id as usize) } else { None };
    (
        TableView {
            vars: t.vars.push(BindingView { name, kind, global_id: id, depth: (t.scopes.len() - 1) as nat }),
            next_id: if t.promotes() { t.next_id + 1 } else { t.next_id },
            ..t
        },
        id,
    )
}

/// The outcome of a write of `name`: an active binding of the name, in any
/// scope, takes the new type and keeps its id; without one a binding is
/// created.
pub open spec fn write_outcome(t: TableView, name: Seq<char>, kind: Type) -> (TableView, Option<usize>) {
    match find_last(t.vars, name) {
        Some(j) => update_outcome(t, j, kind),
        None => create_outcome(t, name, kind),
    }
}

/// The outcome of a declaration of `name`: a binding of the name in the
/// innermost scope takes the new type and keeps its id; otherwise a new
/// binding is created there, shadowing any outer one.
pub open spec fn declare_outcome(t: TableView, name: Seq<char>, kind: Type) -> (TableView, Option<usize>) {
    match find_last(t.vars, name) {
        Some(j) if t.vars[j].depth == t.scopes.len() - 1 => update_outcome(t, j, kind),
        _ => create_outcome(t, name, kind),
    }
}

impl TableView {
    /// Every binding belongs to an open scope, bindings are ordered by scope,
    /// a scope declares a name at most once, and the promoted ids are below
    /// the counter and pairwise distinct.
    pub open spec fn wf(self) -> bool {
        &&& self.scopes.len() >= 1
        &&& forall|i: int| 0 <= i < self.vars.len() ==> #[trigger] self.vars[i].depth < self.scopes.len()
        &&& forall|i: int, j: int|
            0 <= i < j < self.vars.len() ==> #[trigger] self.vars[i].depth <= #[trigger] self.vars[j].depth
        &&& forall|i: int, j: int|
            0 <= i < j < self.vars.len() && #[trigger] self.vars[i].depth == #[trigger] self.vars[j].depth
                ==> self.vars[i].name != self.vars[j].name
        &&& forall|i: int|
            0 <= i < self.vars.len() && (#[trigger] self.vars[i]).global_id is Some
                ==> self.vars[i].global_id->0 < self.next_id
        &&& forall|i: int, j: int|
            0 <= i < self.vars.len() && 0 <= j < self.vars.len() && i != j
                && (#[trigger] self.vars[i]).global_id is Some && (#[trigger] self.vars[j]).global_id is Some
                ==> self.vars[i].global_id != self.vars[j].global_id
    }

    /// Whether a binding created now is promoted: the innermost scope is run
    /// apart from the code around it.
    pub open spec fn promotes(self) -> bool {
        self.scopes.last() == ScopeKind::Isolated
    }
}

/// Lookup yields a binding of the name after which no binding has it, or
/// nothing when no binding has it.
pub proof fn lemma_find_last(vars: Seq<BindingView>, name: Seq<char>)
    ensures
        match find_last(vars, name) {
            Some(j) => 0 <= j < vars.len() && vars[j].name == name
                && forall|k: int| j < k < vars.len() ==> (#[trigger] vars[k]).name != name,
            None => forall|k: int| 0 <= k < vars.len() ==> (#[trigger] vars[k]).name != name,
        },
    decreases vars.len(),
{
    if vars.len() > 0 && vars.last().name != name {
        let rest = vars.drop_last();
        lemma_find_last(rest, name);
        assert forall|k: int| 0 <= k < rest.len() implies (#[trigger] vars[k]) == rest[k] by {}
    }
}

impl SymbolTable {
    /// A table with the top-level scope open and no id handed out.
    pub fn new() -> (r: SymbolTable)
        ensures
            r@.wf(),
            r@.scopes == seq![ScopeKind::Block],
            r@.vars.len() == 0,
            r@.next_id == 0,
    {
        let mut scopes: Vec<ScopeKind> = Vec::new();
        scopes.push(ScopeKind::Block);
        let r = SymbolTable { scopes, vars: Vec::new(), next_id: 0 };
        assert(r@.vars =~= Seq::<BindingView>::empty());
        r
    }

    /// Opens a scope inside the current one.
    pub fn push_scope(&mut self, kind: ScopeKind)
        requires
            old(self)@.wf(),
        ensures
            final(self)@.wf(),
            final(self)@.scopes == old(self)@.scopes.push(kind),
            final(self)@.vars == old(self)@.vars,
            final(self)@.next_id == old(self)@.next_id,
    {
        self.scopes.push(kind);
    }

    /// Closes the innermost scope and drops its bindings; the top-level scope
    /// stays open, and closing it returns `false` and changes nothing.
    pub fn pop_scope(&mut self) -> (r: bool)
        requires
            old(self)@.wf(),
        ensures
            final(self)@.wf(),
            r == (old(self)@.scopes.len() > 1),
            final(self)@.next_id == old(self)@.next_id,
            !r ==> final(self)@ == old(self)@,
            r ==> {
                let top = old(self)@.scopes.len() - 1;
                &&& final(self)@.scopes == old(self)@.scopes.drop_last()
                &&& final(self)@.vars == old(self)@.vars.take(final(self)@.vars.len() as int)
                &&& forall|i: int| 0 <= i < final(self)@.vars.len() ==> (#[trigger] final(self)@.vars[i]).depth < top
                &&& forall|i: int|
                    final(self)@.vars.len() <= i < old(self)@.vars.len() ==> (#[trigger] old(self)@.vars[i]).depth == top
            },
    {
        let n = self.scopes.len();
        if n <= 1 {
            return false;
        }
        let top = n - 1;
        let ghost old_vars = self@.vars;
        while self.vars.len() > 0 && self.vars[self.vars.len() - 1].depth == top
            invariant
                self.scopes@ == old(self).scopes@,
                self.next_id == old(self).next_id,
                n == self.scopes@.len(),
                top == n - 1,
                self@.vars.len() <= old_vars.len(),
                self@.vars == old_vars.take(self@.vars.len() as int),
                old_vars == old(self)@.vars,
                old(self)@.wf(),
                forall|i: int| self@.vars.len() <= i < old_vars.len() ==> (#[trigger] old_vars[i]).depth == top,
            decreases self.vars.len(),
        {
            let ghost before = self@.vars;
            assert(before[before.len() - 1] == old_vars[before.len() - 1]);
            self.vars.pop();
            assert(self@.vars =~= before.drop_last());
        }
        self.scopes.pop();
        let ghost k = self@.vars.len() as int;
        if self.vars.len() > 0 {
            assert(self@.vars[k - 1] == old_vars[k - 1]);
            assert(old_vars[k - 1].depth != top);
        }
        assert forall|i: int| 0 <= i < k implies (#[trigger] self@.vars[i]).depth < top by {
            assert(self@.vars[i] == old_vars[i]);
            if i < k - 1 {
                assert(old_vars[i].depth <= old_vars[k - 1].depth);
            }
        }
        true
    }

    /// The position of the innermost active binding of `name`.
    pub fn find(&self, name: &String) -> (r: Option<usize>)
        ensures
            r matches Some(j) ==> find_last(self@.vars, name@) == Some(j as int),
            r is None ==> find_last(self@.vars, name@) is None,
    {
        let mut i: usize = self.vars.len();
        assert(self@.vars.take(i as int) =~= self@.vars);
        while i > 0
            invariant
                i <= self.vars.len(),
                find_last(self@.vars, name@) == find_last(self@.vars.take(i as int), name@),
            decreases i,
        {
            let ghost pre = self@.vars.take(i as int);
            assert(pre.drop_last() =~= self@.vars.take(i - 1));
            if self.vars[i - 1].name == *name {
                return Some(i - 1);
            }
            i -= 1;
        }
        None
    }

    /// Resolves a read of `name` whose token stands at `at`: the global id and
    /// type of the innermost active binding of the name, or
    /// `UndefinedVariable` when no scope on the stack declares it.
    pub fn resolve_read(&self, name: &String, at: Position) -> (r: Result<(Option<usize>, Type), Failure>)
        ensures
            match find_last(self@.vars, name@) {
                Some(j) => r == Ok::<(Option<usize>, Type), Failure>(outcome(self@.vars[j])),
                None => r matches Err(Failure::UndefinedVariable(p, n)) && p == at && n@ == name@,
            },
    {
        proof {
            lemma_find_last(self@.vars, name@);
        }
        match self.find(name) {
            Some(j) => Ok((self.vars[j].global_id, self.vars[j].kind)),
            None => Err(Failure::UndefinedVariable(at, name.clone())),
        }
    }

    /// Resolves a write of `name` with a value of type `kind`, and returns the
    /// binding's global id. An active binding of the name takes the new type
    /// and keeps its id, present or absent. Otherwise a binding is created in
    /// the innermost scope, promoted with a fresh id when that scope is
    /// isolated.
    pub fn resolve_write(&mut self, name: &String, kind: Type) -> (r: Option<usize>)
        requires
            old(self)@.wf(),
            old(self).next_id < usize::MAX,
        ensures
            final(self)@.wf(),
            (final(self)@, r) == write_outcome(old(self)@, name@, kind),
    {
        proof {
            lemma_find_last(self@.vars, name@);
        }
        match self.find(name) {
            Some(j) => self.update(j, kind),
            None => self.create(name, kind),
        }
    }

    /// Resolves a declaration of `name` with a value of type `kind`, and
    /// returns the binding's global id. A binding of the name in the
    /// innermost scope takes the new type and keeps its id; otherwise a new
    /// binding is created in the innermost scope, shadowing any outer one, and
    /// promoted with a fresh id when that scope is isolated.
    pub fn declare(&mut self, name: &String, kind: Type) -> (r: Option<usize>)
        requires
            old(self)@.wf(),
            old(self).next_id < usize::MAX,
        ensures
            final(self)@.wf(),
            (final(self)@, r) == declare_outcome(old(self)@, name@, kind),
    {
        proof {
            lemma_find_last(self@.vars, name@);
        }
        match self.find(name) {
            Some(j) => {
                if self.vars[j].depth == self.scopes.len() - 1 {
                    self.update(j, kind)
                } else {
                    let ghost t = self@;
                    assert forall|i: int| 0 <= i < t.vars.len() && (#[trigger] t.vars[i]).depth == t.scopes.len() - 1
                        implies t.vars[i].name != name@ by {
                        if i <= j {
                            assert(t.vars[i].depth <= t.vars[j as int].depth);
                        }
                    }
                    self.create(name, kind)
                }
            },
            None => self.create(name, kind),
        }
    }

    fn update(&mut self, j: usize, kind: Type) -> (r: Option<usize>)
        requires
            old(self)@.wf(),
            j < old(self)@.vars.len(),
        ensures
            final(self)@.wf(),
            (final(self)@, r) == update_outcome(old(self)@, j as int, kind),
    {
        let ghost pre = self@;
        self.vars[j].kind = kind;
        assert(self@.vars =~= update_outcome(pre, j as int, kind).0.vars);
        self.vars[j].global_id
    }

    /// Requires that no binding of the innermost scope has the name.
    fn create(&mut self, name: &String, kind: Type) -> (r: Option<usize>)
        requires
            old(self)@.wf(),
            old(self).next_id < usize::MAX,
            forall|i: int|
                0 <= i < old(self)@.vars.len() && (#[trigger] old(self)@.vars[i]).depth == old(self)@.scopes.len() - 1
                    ==> old(self)@.vars[i].name != name@,
        ensures
            final(self)@.wf(),
            (final(self)@, r) == create_outcome(old(self)@, name@, kind),
    {
        let ghost pre = self@;
        let depth = self.scopes.len() - 1;
        let global_id = if self.scopes[depth] == ScopeKind::Isolated {
            let id = self.next_id;
            self.next_id = self.next_id + 1;
            Some(id)
        } else {
            None
        };
        self.vars.push(Binding { name: name.clone(), kind, global_id, depth });
        assert(self@.vars =~= create_outcome(pre, name@, kind).0.vars);
        global_id
    }
}

/// A fresh id is fresh for good: an id that a write hands out is `next_id`,
/// above every id held by an active binding, and the counter moves past it.
/// Closing scopes never lowers the counter, so the id is never handed out
/// again in the same compilation.
pub proof fn lemma_new_id_is_fresh(t: TableView, name: Seq<char>, kind: Type)
    requires
        t.wf(),
        find_last(t.vars, name) is None,
        t.promotes(),
    ensures
        ({
            let (t1, r) = write_outcome(t, name, kind);
            &&& r == Some(t.next_id as usize)
            &&& t1.next_id == t.next_id + 1
            &&& forall|i: int| 0 <= i < t.vars.len() && (#[trigger] t.vars[i]).global_id is Some
                ==> t.vars[i].global_id->0 < t.next_id
        }),
{
}

/// The binding at `j` is the one that lookup finds when no later binding
/// has the name.
pub proof fn lemma_find_last_at(vars: Seq<BindingView>, name: Seq<char>, j: int)
    requires
        0 <= j < vars.len(),
        vars[j].name == name,
        forall|k: int| j < k < vars.len() ==> (#[trigger] vars[k]).name != name,
    ensures
        find_last(vars, name) == Some(j),
    decreases vars.len(),
{
    if j < vars.len() - 1 {
        let rest = vars.drop_last();
        assert forall|k: int| j < k < rest.len() implies (#[trigger] rest[k]).name != name by {
            assert(rest[k] == vars[k]);
        }
        lemma_find_last_at(rest, name, j);
    }
}

/// Reassignment keeps promotion: a second write of a name resolves to the
/// binding of the first and yields the same global id, present or absent,
/// handing out no new one.
pub proof fn lemma_promotion_stable(t: TableView, name: Seq<char>, k1: Type, k2: Type)
    requires
        t.wf(),
    ensures
        ({
            let (t1, r1) = write_outcome(t, name, k1);
            let (t2, r2) = write_outcome(t1, name, k2);
            &&& r2 == r1
            &&& t2.next_id == t1.next_id
            &&& t2.vars.len() == t1.vars.len()
            &&& t2.scopes == t.scopes
        }),
{
    lemma_find_last(t.vars, name);
    let (t1, r1) = write_outcome(t, name, k1);
    match find_last(t.vars, name) {
        Some(j) => {
            assert forall|k: int| j < k < t1.vars.len() implies (#[trigger] t1.vars[k]).name != name by {
                assert(t1.vars[k] == t.vars[k]);
            }
            lemma_find_last_at(t1.vars, name, j);
        },
        None => {
            lemma_find_last_at(t1.vars, name, t.vars.len() as int);
        },
    }
}

/// A read after a write finds the binding written: it yields the id that
/// the write returned and the type written, so the read and the write name
/// the same variable of the target program.
pub proof fn lemma_read_after_write(t: TableView, name: Seq<char>, kind: Type)
    requires
        t.wf(),
    ensures
        ({
            let (t1, r) = write_outcome(t, name, kind);
            find_last(t1.vars, name) matches Some(j) && outcome(t1.vars[j]) == (r, kind)
        }),
{
    lemma_find_last(t.vars, name);
    let (t1, r) = write_outcome(t, name, kind);
    match find_last(t.vars, name) {
        Some(j) => {
            assert forall|k: int| j < k < t1.vars.len() implies (#[trigger] t1.vars[k]).name != name by {
                assert(t1.vars[k] == t.vars[k]);
            }
            lemma_find_last_at(t1.vars, name, j);
        },
        None => {
            lemma_find_last_at(t1.vars, name, t.vars.len() as int);
        },
    }
}

/// A declaration shadows: right after `name` is declared, a read of it
/// resolves to the binding of the innermost scope, with the declared type
/// and the id that the declaration returned, whatever outer scopes hold.
pub proof fn lemma_declaration_shadows(t: TableView, name: Seq<char>, kind: Type)
    requires
        t.wf(),
    ensures
        ({
            let (t1, r) = declare_outcome(t, name, kind);
            find_last(t1.vars, name) matches Some(j) && t1.vars[j].depth == t.scopes.len() - 1
                && outcome(t1.vars[j]) == (r, kind)
        }),
{
    lemma_find_last(t.vars, name);
    let (t1, r) = declare_outcome(t, name, kind);
    match find_last(t.vars, name) {
        Some(j) if t.vars[j].depth == t.scopes.len() - 1 => {
            assert forall|k: int| j < k < t1.vars.len() implies (#[trigger] t1.vars[k]).name != name by {
                assert(t1.vars[k] == t.vars[k]);
            }
            lemma_find_last_at(t1.vars, name, j);
        },
        _ => {
            lemma_find_last_at(t1.vars, name, t.vars.len() as int);
        },
    }
}

/// Innermost wins: of all active bindings of a name, lookup yields the one
/// in the innermost scope that declares it.
pub proof fn lemma_innermost_wins(t: TableView, name: Seq<char>, k: int)
    requires
        t.wf(),
        0 <= k < t.vars.len(),
        t.vars[k].name == name,
    ensures
        find_last(t.vars, name) matches Some(j) && t.vars[k].depth <= t.vars[j].depth
            && (t.vars[k].depth == t.vars[j].depth ==> k == j),
{
    lemma_find_last(t.vars, name);
    let j = find_last(t.vars, name)->0;
    if k < j {
        assert(t.vars[k].depth <= t.vars[j].depth);
    }
}

} // verus!

use amber_vars::get::VariableGet;
use amber_vars::naming::mangled_name;
use amber_vars::parser::{token, variable, ParserMetadata};
use amber_vars::scope::{ScopeKind, SymbolTable};
use amber_vars::set::VariableSet;
use amber_vars::token::{variable_name, Token};
use amber_vars::types::{Expr, Failure, Position, Type};

fn tokens(words: &[&str]) -> Vec<Token> {
    words
        .iter()
        .enumerate()
        .map(|(i, w)| Token { word: String::from(*w), pos: Position { row: 1, col: i + 1 } })
        .collect()
}

fn value(kind: Type, code: &str) -> Expr {
    Expr { kind, code: String::from(code) }
}

/// Parses `name = <value>` at the current token, taking the value as already
/// parsed and skipping `skip` tokens for it.
fn assign(meta: &mut ParserMetadata, skip: usize, val: Expr) -> VariableSet {
    let mut set = VariableSet::new();
    set.parse(meta).expect("assignment head");
    meta.index += skip;
    set.resolve(meta, val);
    set
}

fn read(meta: &mut ParserMetadata) -> Result<VariableGet, Failure> {
    let mut get = VariableGet::new();
    get.parse(meta).map(|_| get)
}

#[test]
fn read_renders_promoted_and_plain_names() {
    let promoted = VariableGet { name: String::from("y"), kind: Type::Num, global_id: Some(3) };
    assert_eq!(promoted.translate(), "${__3_y}");
    let plain = VariableGet { name: String::from("z"), kind: Type::Num, global_id: None };
    assert_eq!(plain.translate(), "${z}");
}

#[test]
fn write_renders_promoted_and_plain_names() {
    let promoted = VariableSet { name: String::from("y"), value: value(Type::Num, "12"), global_id: Some(3) };
    assert_eq!(promoted.translate(), "__3_y=12");
    let plain = VariableSet { name: String::from("z"), value: value(Type::Text, "\"hi\""), global_id: None };
    assert_eq!(plain.translate(), "z=\"hi\"");
}

#[test]
fn translate_is_idempotent() {
    let get = VariableGet { name: String::from("y"), kind: Type::Num, global_id: Some(7) };
    assert_eq!(get.translate(), get.translate());
}

#[test]
fn mangled_names_use_decimal_ids() {
    assert_eq!(mangled_name(&String::from("a"), Some(0)), "__0_a");
    assert_eq!(mangled_name(&String::from("a"), Some(10)), "__10_a");
    assert_eq!(mangled_name(&String::from("name"), Some(1234567)), "__1234567_name");
    assert_eq!(mangled_name(&String::from("name"), None), "name");
}

#[test]
fn top_level_variable_reads_plain() {
    let mut meta = ParserMetadata::new(tokens(&["x", "=", "1", "x"]));
    let set = assign(&mut meta, 1, value(Type::Num, "1"));
    assert_eq!(set.global_id, None);
    assert_eq!(set.translate(), "x=1");
    let get = read(&mut meta).expect("x is declared");
    assert_eq!(get.global_id, None);
    assert_eq!(get.get_type(), Type::Num);
    assert_eq!(get.translate(), "${x}");
    assert_eq!(meta.index, 4);
}

#[test]
fn isolated_declaration_does_not_leak() {
    let mut meta = ParserMetadata::new(tokens(&["x", "=", "1", "x"]));
    meta.table.push_scope(ScopeKind::Isolated);
    let set = assign(&mut meta, 1, value(Type::Num, "1"));
    assert_eq!(set.global_id, Some(0));
    assert_eq!(set.translate(), "__0_x=1");
    assert!(meta.table.pop_scope());
    match read(&mut meta) {
        Err(Failure::UndefinedVariable(at, name)) => {
            assert_eq!(at, Position { row: 1, col: 4 });
            assert_eq!(name, "x");
        }
        other => panic!("expected an undefined variable, got {:?}", other),
    }
}

#[test]
fn isolated_variable_reads_mangled_inside_its_scope() {
    let mut meta = ParserMetadata::new(tokens(&["x", "=", "1", "x"]));
    meta.table.push_scope(ScopeKind::Isolated);
    assign(&mut meta, 1, value(Type::Text, "\"a\""));
    let get = read(&mut meta).expect("x is declared");
    assert_eq!(get.global_id, Some(0));
    assert_eq!(get.get_type(), Type::Text);
    assert_eq!(get.translate(), "${__0_x}");
}

#[test]
fn reassignment_keeps_the_binding() {
    // count = 1 ; count = count + 1
    let mut meta = ParserMetadata::new(tokens(&["count", "=", "1", "count", "=", "count", "+", "1"]));
    meta.table.push_scope(ScopeKind::Isolated);
    let first = assign(&mut meta, 1, value(Type::Num, "1"));
    let mut second = VariableSet::new();
    second.parse(&mut meta).expect("assignment head");
    let inner = read(&mut meta).expect("count is declared");
    meta.index += 2;
    let rhs = value(inner.get_type(), &format!("$(( {} + 1 ))", inner.translate()));
    second.resolve(&mut meta, rhs);
    assert_eq!(first.global_id, Some(0));
    assert_eq!(second.global_id, first.global_id);
    assert_eq!(inner.global_id, first.global_id);
    assert_eq!(second.translate(), "__0_count=$(( ${__0_count} + 1 ))");
    assert_eq!(meta.table.next_id, 1);
    assert_eq!(meta.table.vars.len(), 1);
}

#[test]
fn reassignment_updates_type_and_keeps_plain_name() {
    let mut table = SymbolTable::new();
    let name = String::from("v");
    assert_eq!(table.resolve_write(&name, Type::Num), None);
    assert_eq!(table.resolve_write(&name, Type::Text), None);
    let at = Position { row: 2, col: 3 };
    assert_eq!(table.resolve_read(&name, at).ok(), Some((None, Type::Text)));
    assert_eq!(table.vars.len(), 1);
}

#[test]
fn write_from_inner_scope_updates_outer_binding() {
    let mut table = SymbolTable::new();
    let name = String::from("v");
    table.resolve_write(&name, Type::Num);
    table.push_scope(ScopeKind::Isolated);
    assert_eq!(table.resolve_write(&name, Type::Bool), None);
    assert_eq!(table.next_id, 0);
    assert!(table.pop_scope());
    let at = Position { row: 1, col: 1 };
    assert_eq!(table.resolve_read(&name, at).ok(), Some((None, Type::Bool)));
}

#[test]
fn innermost_binding_shadows_outer() {
    let mut table = SymbolTable::new();
    let x = String::from("x");
    let at = Position { row: 1, col: 1 };
    table.push_scope(ScopeKind::Isolated);
    assert_eq!(table.resolve_write(&x, Type::Num), Some(0));
    table.push_scope(ScopeKind::Isolated);
    assert_eq!(table.declare(&x, Type::Text), Some(1));
    assert_eq!(table.resolve_read(&x, at).ok(), Some((Some(1), Type::Text)));
    assert!(table.pop_scope());
    assert_eq!(table.resolve_read(&x, at).ok(), Some((Some(0), Type::Num)));
}

#[test]
fn redeclaration_in_same_scope_reuses_binding() {
    let mut table = SymbolTable::new();
    let x = String::from("x");
    table.push_scope(ScopeKind::Isolated);
    assert_eq!(table.declare(&x, Type::Num), Some(0));
    assert_eq!(table.declare(&x, Type::Text), Some(0));
    assert_eq!(table.vars.len(), 1);
    assert_eq!(table.next_id, 1);
    let at = Position { row: 1, col: 1 };
    assert_eq!(table.resolve_read(&x, at).ok(), Some((Some(0), Type::Text)));
}

#[test]
fn shadowed_plain_names_in_block_scopes() {
    let mut table = SymbolTable::new();
    let x = String::from("x");
    let at = Position { row: 1, col: 1 };
    assert_eq!(table.declare(&x, Type::Num), None);
    table.push_scope(ScopeKind::Block);
    assert_eq!(table.declare(&x, Type::Bool), None);
    assert_eq!(table.vars.len(), 2);
    assert_eq!(table.resolve_read(&x, at).ok(), Some((None, Type::Bool)));
    assert!(table.pop_scope());
    assert_eq!(table.resolve_read(&x, at).ok(), Some((None, Type::Num)));
}

#[test]
fn promoted_ids_are_unique_across_scopes() {
    let mut table = SymbolTable::new();
    let x = String::from("x");
    table.push_scope(ScopeKind::Isolated);
    let a = table.resolve_write(&x, Type::Num);
    assert!(table.pop_scope());
    table.push_scope(ScopeKind::Isolated);
    let b = table.resolve_write(&x, Type::Num);
    table.push_scope(ScopeKind::Isolated);
    let c = table.resolve_write(&String::from("y"), Type::Num);
    assert_eq!(a, Some(0));
    assert_eq!(b, Some(1));
    assert_eq!(c, Some(2));
}

#[test]
fn block_scopes_do_not_promote() {
    let mut table = SymbolTable::new();
    table.push_scope(ScopeKind::Isolated);
    table.push_scope(ScopeKind::Block);
    assert_eq!(table.resolve_write(&String::from("i"), Type::Num), None);
    assert_eq!(table.next_id, 0);
    assert_eq!(table.vars[0].depth, 2);
}

#[test]
fn top_level_scope_stays_open() {
    let mut table = SymbolTable::new();
    table.resolve_write(&String::from("a"), Type::Bool);
    assert!(!table.pop_scope());
    assert_eq!(table.scopes.len(), 1);
    assert_eq!(table.vars.len(), 1);
}

#[test]
fn undefined_read_fails_at_its_token() {
    let mut meta = ParserMetadata::new(tokens(&["a", "missing"]));
    meta.index = 1;
    let mut get = VariableGet::new();
    match get.parse(&mut meta) {
        Err(Failure::UndefinedVariable(at, name)) => {
            assert_eq!(at, Position { row: 1, col: 2 });
            assert_eq!(name, "missing");
        }
        other => panic!("expected an undefined variable, got {:?}", other),
    }
    assert_eq!(get.global_id, None);
    assert_eq!(get.get_type(), Type::Null);
}

#[test]
fn read_of_non_name_is_syntax_error() {
    let mut meta = ParserMetadata::new(tokens(&["1x"]));
    match read(&mut meta) {
        Err(Failure::Syntax(at)) => assert_eq!(at, Some(Position { row: 1, col: 1 })),
        other => panic!("expected a syntax error, got {:?}", other),
    }
    assert_eq!(meta.index, 0);
}

#[test]
fn read_at_end_of_input_is_syntax_error() {
    let mut meta = ParserMetadata::new(Vec::new());
    assert!(matches!(read(&mut meta), Err(Failure::Syntax(None))));
}

#[test]
fn assignment_without_equals_is_syntax_error() {
    let mut meta = ParserMetadata::new(tokens(&["x", "+", "1"]));
    let mut set = VariableSet::new();
    match set.parse(&mut meta) {
        Err(Failure::Syntax(at)) => assert_eq!(at, Some(Position { row: 1, col: 2 })),
        other => panic!("expected a syntax error, got {:?}", other),
    }
    assert_eq!(set.name, "x");
    assert_eq!(meta.index, 1);

    let mut meta = ParserMetadata::new(tokens(&["x"]));
    let mut set = VariableSet::new();
    assert!(matches!(set.parse(&mut meta), Err(Failure::Syntax(None))));
}

#[test]
fn variable_names() {
    assert!(variable_name("x"));
    assert!(variable_name("_tmp9"));
    assert!(variable_name("count_2"));
    assert!(variable_name("zażółć"));
    assert!(!variable_name("9lives"));
    assert!(!variable_name("a-b"));
    assert!(!variable_name("="));
}

#[test]
fn token_matches_exact_word() {
    let mut meta = ParserMetadata::new(tokens(&["==", "="]));
    assert!(matches!(token(&mut meta, "="), Err(Failure::Syntax(Some(_)))));
    meta.index = 1;
    assert!(token(&mut meta, "=").is_ok());
    assert_eq!(meta.index, 2);
    let mut meta = ParserMetadata::new(tokens(&["abc"]));
    assert_eq!(variable(&mut meta).ok(), Some(String::from("abc")));
}

#[test]
fn expression_passes_through() {
    let e = value(Type::Bool, "1");
    assert_eq!(e.get_type(), Type::Bool);
    assert_eq!(e.translate(), "1");
    assert_eq!(Expr::new().get_type(), Type::Null);
}

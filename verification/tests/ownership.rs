use restc::hir::HirExpr;
use restc::lexer::token::Span;
use restc::ownership::{Owner, OwnerTracker, SourceInit};
use restc::ty::Type;

fn names(owners: &[Owner]) -> Vec<String> {
    owners.iter().map(|o| o.name().clone()).collect()
}

#[test]
fn tracker_starts_with_one_empty_scope() {
    let t = OwnerTracker::new();
    assert_eq!(t.depth(), 1);
    assert!(!t.is_owner("x"));
}

#[test]
fn tracked_value_has_an_owner() {
    let mut t = OwnerTracker::new();
    t.track(Owner::String("s".to_string()));
    assert!(t.is_owner("s"));
    assert!(!t.is_owner("t"));
}

#[test]
fn exit_hands_back_latest_owner_first() {
    let mut t = OwnerTracker::new();
    t.enter();
    t.track(Owner::Struct("a".to_string(), "P".to_string()));
    t.track(Owner::Array("b".to_string(), Type::I32, 4));
    let released = t.exit().expect("a scope was open");
    assert_eq!(names(&released), vec!["b", "a"]);
    assert_eq!(t.depth(), 1);
    assert!(!t.is_owner("a"));
}

#[test]
fn exit_without_scopes_releases_nothing() {
    let mut t = OwnerTracker::new();
    assert!(t.exit().is_some());
    assert!(t.exit().is_none());
    assert_eq!(t.depth(), 0);
}

#[test]
fn release_since_empties_inner_scopes_in_reverse_order() {
    let mut t = OwnerTracker::new();
    t.track(Owner::String("a".to_string()));
    t.enter();
    t.track(Owner::String("b".to_string()));
    t.track(Owner::String("c".to_string()));
    t.enter();
    t.track(Owner::String("d".to_string()));
    let released = t.release_since(1);
    assert_eq!(names(&released), vec!["d", "c", "b"]);
    assert_eq!(t.depth(), 3);
    assert!(t.is_owner("a"));
    assert!(!t.is_owner("b"));
    assert!(!t.is_owner("d"));
}

#[test]
fn transfer_moves_struct_ownership() {
    let mut t = OwnerTracker::new();
    t.track(Owner::Struct("p".to_string(), "Point".to_string()));
    t.enter();
    t.transfer_ownership("p", "q", "Point");
    assert!(!t.is_owner("p"));
    assert!(t.is_owner("q"));
    match &t.owners_of("q")[..] {
        [Owner::Struct(n, s)] => {
            assert_eq!(n, "q");
            assert_eq!(s, "Point");
        },
        other => panic!("unexpected {:?}", other),
    }
}

#[test]
fn forgetting_a_moved_value_keeps_its_strings() {
    let mut t = OwnerTracker::new();
    t.track(Owner::Array("x".to_string(), Type::U8, 2));
    t.track(Owner::String("x".to_string()));
    t.track(Owner::Struct("y".to_string(), "P".to_string()));
    t.forget_moved("x");
    assert_eq!(t.owners_of("x").len(), 1);
    assert!(matches!(&t.owners_of("x")[0], Owner::String(_)));
    assert!(t.is_owner("y"));
    t.forget("x");
    assert!(!t.is_owner("x"));
    assert!(t.is_owner("y"));
}

#[test]
fn removing_struct_owner_leaves_other_kinds() {
    let mut t = OwnerTracker::new();
    t.track(Owner::Struct("v".to_string(), "P".to_string()));
    t.track(Owner::Array("v".to_string(), Type::I64, 3));
    t.remove_struct_owner("v");
    let left = t.owners_of("v");
    assert_eq!(left.len(), 1);
    assert!(matches!(&left[0], Owner::Array(_, Type::I64, 3)));
}

#[test]
fn owners_of_lists_outer_scopes_first() {
    let mut t = OwnerTracker::new();
    t.track(Owner::String("n".to_string()));
    t.enter();
    t.track(Owner::Struct("m".to_string(), "S".to_string()));
    t.track(Owner::Array("n".to_string(), Type::Bool, 1));
    let found = t.owners_of("n");
    assert_eq!(found.len(), 2);
    assert!(matches!(&found[0], Owner::String(_)));
    assert!(matches!(&found[1], Owner::Array(..)));
}

fn sp() -> Span {
    Span { start: 0, end: 0, line: 1, col: 1 }
}

fn ident(name: &str, ty: Type) -> HirExpr {
    HirExpr::Ident { name: name.to_string(), ty, span: sp() }
}

#[test]
fn assigning_an_owning_variable_moves_its_struct() {
    let mut t = OwnerTracker::new();
    t.track(Owner::Struct("a".to_string(), "P".to_string()));
    t.track(Owner::Struct("b".to_string(), "P".to_string()));
    let (released, adopted) = t.assign("b", &ident("a", Type::Struct("P".to_string())), None);
    assert_eq!(names(&released), vec!["b"]);
    assert_eq!(names(&adopted), vec!["a"]);
    assert!(!t.is_owner("a"));
    assert!(matches!(&t.owners_of("b")[..], [Owner::Struct(_, s)] if s == "P"));
}

#[test]
fn assigning_a_string_variable_shares_it() {
    let mut t = OwnerTracker::new();
    t.track(Owner::String("s".to_string()));
    let (released, adopted) = t.assign("u", &ident("s", Type::String), Some(&Type::String));
    assert!(released.is_empty());
    assert_eq!(adopted.len(), 1);
    assert!(t.is_owner("s"));
    assert!(t.is_owner("u"));
}

#[test]
fn self_assignment_changes_nothing() {
    let mut t = OwnerTracker::new();
    t.track(Owner::Struct("a".to_string(), "P".to_string()));
    let (released, adopted) = t.assign("a", &ident("a", Type::Struct("P".to_string())), None);
    assert!(released.is_empty() && adopted.is_empty());
    assert_eq!(t.owners_of("a").len(), 1);
}

#[test]
fn assigning_a_fresh_value_owns_it_by_type() {
    let mut t = OwnerTracker::new();
    t.track(Owner::Array("xs".to_string(), Type::I32, 2));
    let fresh = HirExpr::ArrayLiteral(Box::new(Type::I32), vec![], sp());
    let arr_ty = Type::Array(Box::new(Type::I32), 2);
    let (released, adopted) = t.assign("xs", &fresh, Some(&arr_ty));
    assert_eq!(released.len(), 1);
    assert!(adopted.is_empty());
    assert!(matches!(&t.owners_of("xs")[..], [Owner::Array(_, Type::I32, 2)]));
    let (released, _) = t.assign("n", &HirExpr::Int(1, Type::I64, sp()), Some(&Type::I64));
    assert!(released.is_empty());
    assert!(!t.is_owner("n"));
}

#[test]
fn binding_from_an_owning_struct_variable_moves_it() {
    let mut t = OwnerTracker::new();
    t.track(Owner::Struct("p".to_string(), "P".to_string()));
    let how = t.bind("q", &Type::Struct("P".to_string()), &ident("p", Type::Struct("P".to_string())), false, true);
    assert_eq!(how, SourceInit::MoveStruct);
    assert!(!t.is_owner("p"));
    assert!(t.is_owner("q"));
}

#[test]
fn binding_strings_and_arrays() {
    let mut t = OwnerTracker::new();
    t.track(Owner::String("s".to_string()));
    assert_eq!(t.bind("u", &Type::String, &ident("s", Type::String), false, true), SourceInit::RetainString);
    assert!(t.is_owner("s") && t.is_owner("u"));
    let lit = HirExpr::ArrayLiteral(Box::new(Type::U8), vec![HirExpr::Int(1, Type::U8, sp()), HirExpr::Int(2, Type::U8, sp())], sp());
    assert_eq!(t.bind("xs", &Type::Array(Box::new(Type::U8), 2), &lit, false, true), SourceInit::Copy);
    assert!(matches!(&t.owners_of("xs")[..], [Owner::Array(_, Type::U8, 2)]));
    let alloc = HirExpr::AllocStruct("P".to_string(), vec![], sp());
    assert_eq!(t.bind("p", &Type::Struct("P".to_string()), &alloc, true, true), SourceInit::Copy);
    assert!(matches!(&t.owners_of("p")[..], [Owner::Struct(_, s)] if s == "P"));
    assert_eq!(t.bind("k", &Type::I32, &HirExpr::Int(3, Type::I32, sp()), false, true), SourceInit::Copy);
    assert!(!t.is_owner("k"));
}

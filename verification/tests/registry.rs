use peggen::builder::{BuildError, Builder, Fmt, Rule};
use peggen::grammar::Flag;
use peggen::num_build::NumBuild;
use peggen::registry::{Num, Registry};

fn three_rules(ident: &str) -> Builder {
    let rule = |name: &str| Rule {
        name: name.to_string(),
        body: vec![(Fmt::Token { token: name.to_string() }, Flag::Null)],
        trace: false,
    };
    Builder { ident: ident.to_string(), rules: vec![rule("a"), rule("b"), rule("c")] }
}

#[test]
fn a_new_registry_starts_at_zero() {
    let registry = Registry::new();
    assert_eq!(registry.first_free(), 0);
}

#[test]
fn reserve_returns_the_prior_value_and_moves_on() {
    let mut registry = Registry::new();
    assert_eq!(registry.reserve(3), 0);
    assert_eq!(registry.first_free(), 3);
    assert_eq!(registry.reserve(0), 3);
    assert_eq!(registry.first_free(), 3);
    assert_eq!(registry.reserve(5), 3);
    assert_eq!(registry.first_free(), 8);
}

#[test]
fn has_room_knows_the_last_identity() {
    let registry = Registry::starting_at(usize::MAX - 2);
    assert!(registry.has_room(0));
    assert!(registry.has_room(2));
    assert!(!registry.has_room(3));
}

#[test]
fn num_adds_the_rule_to_the_base() {
    let num = Num { base: 10, count: 3 };
    assert_eq!(num.num(0), 10);
    assert_eq!(num.num(2), 12);
}

#[test]
fn two_grammars_get_ranges_that_do_not_overlap() {
    let mut registry = Registry::new();
    let first = three_rules("First").num_build(&mut registry).unwrap();
    let second = three_rules("Second").num_build(&mut registry).unwrap();
    assert_eq!(first, Num { base: 0, count: 3 });
    assert_eq!(second, Num { base: 3, count: 3 });
    for i in 0..3 {
        for j in 0..3 {
            assert_ne!(first.num(i), second.num(j));
        }
    }
}

#[test]
fn the_other_order_gives_ranges_that_do_not_overlap_either() {
    let mut registry = Registry::new();
    let second = three_rules("Second").num_build(&mut registry).unwrap();
    let first = three_rules("First").num_build(&mut registry).unwrap();
    assert_eq!(second, Num { base: 0, count: 3 });
    assert_eq!(first, Num { base: 3, count: 3 });
    for i in 0..3 {
        for j in 0..3 {
            assert_ne!(first.num(i), second.num(j));
        }
    }
}

#[test]
fn identities_stay_the_same_when_asked_for_again() {
    let mut registry = Registry::new();
    let first = three_rules("First").build(&mut registry).unwrap();
    let second = three_rules("Second").build(&mut registry).unwrap();
    let before: Vec<usize> = (0..3).map(|i| first.identity(i)).collect();
    let other: Vec<usize> = (0..3).map(|i| second.identity(i)).collect();
    let after: Vec<usize> = (0..3).map(|i| first.identity(i)).collect();
    assert_eq!(before, vec![0, 1, 2]);
    assert_eq!(other, vec![3, 4, 5]);
    assert_eq!(before, after);
}

#[test]
fn independent_registries_number_independently() {
    let mut one = Registry::new();
    let mut two = Registry::new();
    let a = three_rules("A").num_build(&mut one).unwrap();
    let b = three_rules("B").num_build(&mut two).unwrap();
    assert_eq!(a.base, 0);
    assert_eq!(b.base, 0);
}

#[test]
fn num_build_fails_where_the_identities_run_out() {
    let mut registry = Registry::starting_at(usize::MAX - 2);
    let r = three_rules("Late").num_build(&mut registry);
    assert_eq!(r, Err(BuildError::Identities));
    assert_eq!(registry.first_free(), usize::MAX - 2);
}

#[test]
fn num_build_takes_the_last_identities() {
    let mut registry = Registry::starting_at(usize::MAX - 3);
    let r = three_rules("Last").num_build(&mut registry);
    assert_eq!(r, Ok(Num { base: usize::MAX - 3, count: 3 }));
    assert_eq!(registry.first_free(), usize::MAX);
}

#[test]
fn a_name_reserves_only_once() {
    let mut registry = Registry::new();
    let first = three_rules("First").num_build(&mut registry).unwrap();
    let second = three_rules("Second").num_build(&mut registry).unwrap();
    assert_eq!(registry.first_free(), 6);
    assert_eq!(three_rules("First").num_build(&mut registry), Ok(first));
    assert_eq!(three_rules("Second").num_build(&mut registry), Ok(second));
    assert_eq!(three_rules("First").num_build(&mut registry), Ok(first));
    assert_eq!(registry.first_free(), 6);
}

#[test]
fn a_name_keeps_its_range_when_the_identities_have_run_out() {
    let mut registry = Registry::starting_at(usize::MAX - 3);
    let last = three_rules("Last").num_build(&mut registry).unwrap();
    assert_eq!(three_rules("Late").num_build(&mut registry), Err(BuildError::Identities));
    assert_eq!(three_rules("Last").num_build(&mut registry), Ok(last));
}

#[test]
fn a_name_with_another_number_of_rules_is_refused() {
    let mut registry = Registry::new();
    let first = three_rules("First").num_build(&mut registry).unwrap();
    let mut other = three_rules("First");
    other.rules.pop();
    assert_eq!(other.num_build(&mut registry), Err(BuildError::Redefined));
    assert_eq!(other.build(&mut registry).err(), Some(BuildError::Redefined));
    assert_eq!(registry.first_free(), 3);
    assert_eq!(registry.lookup("First"), Some(first));
}

#[test]
fn lookup_finds_what_was_reserved_under_a_name() {
    let mut registry = Registry::new();
    assert_eq!(registry.lookup("First"), None);
    let first = registry.reserve_as("First", 3);
    assert_eq!(first, Num { base: 0, count: 3 });
    assert_eq!(registry.reserve(4), 3);
    let second = registry.reserve_as("Second", 2);
    assert_eq!(second, Num { base: 7, count: 2 });
    assert_eq!(registry.lookup("First"), Some(first));
    assert_eq!(registry.lookup("Second"), Some(second));
    assert_eq!(registry.lookup("Third"), None);
    assert_eq!(registry.lookup(""), None);
    assert_eq!(registry.first_free(), 9);
}

#[test]
fn building_a_grammar_again_gives_the_same_identities() {
    let mut registry = Registry::new();
    let first = three_rules("First").build(&mut registry).unwrap();
    let second = three_rules("Second").build(&mut registry).unwrap();
    let again = three_rules("First").build(&mut registry).unwrap();
    assert_eq!(first.num, again.num);
    assert_ne!(first.num, second.num);
    for i in 0..3 {
        assert_eq!(first.identity(i), again.identity(i));
    }
    assert_eq!(registry.first_free(), 6);
}

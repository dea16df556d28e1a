use peggen::engine::{match_expr, match_sequence, NoMatch};
use peggen::grammar::{Expr, Flag, Grammar};
use peggen::registry::Num;
use peggen::space::{Blanks, NoSkip};
use peggen::tag::{Tag, TagKind, TagStack};
use peggen::trace::TraceEvent;
use regex::Regex;

fn no_rules() -> Grammar {
    Grammar { rules: Vec::new(), num: Num { base: 0, count: 0 } }
}

fn leaf(pattern: &str) -> Expr {
    Expr::RegExp { regex: Regex::new(pattern).unwrap() }
}

fn token(literal: &str) -> Expr {
    Expr::Token { literal: literal.to_string() }
}

fn tag(kind: TagKind, begin: usize, end: usize) -> Tag {
    Tag { kind, begin, end }
}

fn run(
    children: &Vec<(Expr, Flag)>,
    input: &str,
    pos: usize,
) -> (Result<usize, NoMatch>, Vec<Tag>) {
    let g = no_rules();
    let mut trace: Vec<TraceEvent> = Vec::new();
    let mut stack = TagStack::new();
    let r = match_sequence(&g, &NoSkip, children, input, pos, &mut trace, &mut stack);
    assert!(trace.is_empty());
    (r, stack.into_vec())
}

#[test]
fn repeated_digits_stop_at_the_first_letter() {
    let children = vec![(leaf("^([0-9])"), Flag::Repeat)];
    let (r, tags) = run(&children, "12a", 0);
    assert_eq!(r, Ok(2));
    assert_eq!(
        tags,
        vec![
            tag(TagKind::Leaf, 0, 1),
            tag(TagKind::Leaf, 1, 2),
            tag(TagKind::Group(2), 0, 2),
        ]
    );
}

#[test]
fn a_repetition_of_nothing_matches_nothing() {
    let children = vec![(leaf("^([0-9])"), Flag::Repeat)];
    let (r, tags) = run(&children, "abc", 1);
    assert_eq!(r, Ok(1));
    assert_eq!(tags, vec![tag(TagKind::Group(0), 1, 1)]);
}

#[test]
fn a_repetition_may_reach_the_end_of_the_input() {
    let children = vec![(token("ab"), Flag::Repeat)];
    let (r, tags) = run(&children, "ababab", 0);
    assert_eq!(r, Ok(6));
    assert_eq!(tags, vec![tag(TagKind::Group(3), 0, 6)]);
}

#[test]
fn a_repetition_that_consumes_nothing_ends_after_one_round() {
    let children = vec![(leaf("^([0-9]*)"), Flag::Repeat)];
    let (r, tags) = run(&children, "ab", 0);
    assert_eq!(r, Ok(0));
    assert_eq!(tags, vec![tag(TagKind::Leaf, 0, 0), tag(TagKind::Group(1), 0, 0)]);
}

#[test]
fn a_repetition_ends_with_the_round_that_consumes_nothing() {
    let children = vec![(leaf("^([0-9]*)"), Flag::Repeat)];
    let (r, tags) = run(&children, "12ab", 0);
    assert_eq!(r, Ok(2));
    assert_eq!(
        tags,
        vec![
            tag(TagKind::Leaf, 0, 2),
            tag(TagKind::Leaf, 2, 2),
            tag(TagKind::Group(2), 0, 2),
        ]
    );
}

#[test]
fn an_optional_child_that_matches_counts() {
    let children = vec![(leaf("^(-)"), Flag::OrNot), (leaf("^([0-9]+)"), Flag::Null)];
    let (r, tags) = run(&children, "-42", 0);
    assert_eq!(r, Ok(3));
    assert_eq!(
        tags,
        vec![
            tag(TagKind::Leaf, 0, 1),
            tag(TagKind::Leaf, 1, 3),
            tag(TagKind::Group(1), 0, 3),
        ]
    );
}

#[test]
fn an_optional_child_that_fails_is_passed_over() {
    let children = vec![(leaf("^(-)"), Flag::OrNot), (leaf("^([0-9]+)"), Flag::Null)];
    let (r, tags) = run(&children, "42", 0);
    assert_eq!(r, Ok(2));
    assert_eq!(tags, vec![tag(TagKind::Leaf, 0, 2), tag(TagKind::Group(0), 0, 2)]);
}

#[test]
fn a_required_child_does_not_count() {
    let children = vec![(token("a"), Flag::Null), (token("b"), Flag::Null)];
    let (r, tags) = run(&children, "abc", 0);
    assert_eq!(r, Ok(2));
    assert_eq!(tags, vec![tag(TagKind::Group(0), 0, 2)]);
}

#[test]
fn the_empty_sequence_matches_nothing() {
    let children: Vec<(Expr, Flag)> = Vec::new();
    let (r, tags) = run(&children, "abc", 3);
    assert_eq!(r, Ok(3));
    assert_eq!(tags, vec![tag(TagKind::Group(0), 3, 3)]);
}

#[test]
fn a_required_child_that_fails_fails_the_sequence() {
    let children = vec![(token("a"), Flag::Null), (token("b"), Flag::Null)];
    let (r, tags) = run(&children, "acb", 0);
    assert_eq!(r, Err(NoMatch));
    assert!(tags.is_empty());
}

#[test]
fn a_failure_drops_what_earlier_children_pushed() {
    let g = no_rules();
    let children = vec![
        (leaf("^([0-9])"), Flag::Repeat),
        (leaf("^(-)"), Flag::OrNot),
        (token("b"), Flag::Null),
    ];
    let mut trace: Vec<TraceEvent> = Vec::new();
    let mut stack = TagStack::new();
    stack.push(tag(TagKind::Leaf, 7, 8));
    let r = match_sequence(&g, &NoSkip, &children, "12-a", 0, &mut trace, &mut stack);
    assert_eq!(r, Err(NoMatch));
    assert_eq!(stack.into_vec(), vec![tag(TagKind::Leaf, 7, 8)]);
}

#[test]
fn a_match_keeps_what_was_on_the_stack() {
    let g = no_rules();
    let children = vec![(leaf("^([0-9])"), Flag::Repeat)];
    let mut trace: Vec<TraceEvent> = Vec::new();
    let mut stack = TagStack::new();
    stack.push(tag(TagKind::Leaf, 7, 8));
    let r = match_sequence(&g, &NoSkip, &children, "1", 0, &mut trace, &mut stack);
    assert_eq!(r, Ok(1));
    assert_eq!(
        stack.into_vec(),
        vec![tag(TagKind::Leaf, 7, 8), tag(TagKind::Leaf, 0, 1), tag(TagKind::Group(1), 0, 1)]
    );
}

#[test]
fn a_nested_sequence_pushes_its_own_group() {
    let inner = Expr::Sequence {
        children: vec![(leaf("^([0-9]+)"), Flag::Null), (token(","), Flag::OrNot)],
    };
    let children = vec![(inner, Flag::Repeat)];
    let (r, tags) = run(&children, "1,22,3;", 0);
    assert_eq!(r, Ok(6));
    assert_eq!(
        tags,
        vec![
            tag(TagKind::Leaf, 0, 1),
            tag(TagKind::Group(1), 0, 2),
            tag(TagKind::Leaf, 2, 4),
            tag(TagKind::Group(1), 2, 5),
            tag(TagKind::Leaf, 5, 6),
            tag(TagKind::Group(0), 5, 6),
            tag(TagKind::Group(3), 0, 6),
        ]
    );
}

#[test]
fn a_failed_round_of_a_repetition_leaves_no_tag() {
    let inner = Expr::Sequence {
        children: vec![(leaf("^([0-9])"), Flag::Null), (token(";"), Flag::Null)],
    };
    let children = vec![(inner, Flag::Repeat)];
    let (r, tags) = run(&children, "1;2,", 0);
    assert_eq!(r, Ok(2));
    assert_eq!(
        tags,
        vec![
            tag(TagKind::Leaf, 0, 1),
            tag(TagKind::Group(0), 0, 2),
            tag(TagKind::Group(1), 0, 2),
        ]
    );
}

#[test]
fn a_symbol_without_a_rule_does_not_match() {
    let children = vec![(Expr::Symbol { rule: 0 }, Flag::Null)];
    let (r, tags) = run(&children, "a", 0);
    assert_eq!(r, Err(NoMatch));
    assert!(tags.is_empty());
}

#[test]
fn whitespace_is_skipped_where_the_sequence_asks_for_it() {
    let g = no_rules();
    let children = vec![
        (token("let"), Flag::Null),
        (Expr::Space, Flag::Null),
        (leaf("^([a-z]+)"), Flag::Null),
    ];
    let mut trace: Vec<TraceEvent> = Vec::new();
    let mut stack = TagStack::new();
    let r = match_sequence(&g, &Blanks, &children, "let   x = 1", 0, &mut trace, &mut stack);
    assert_eq!(r, Ok(7));
    assert_eq!(
        stack.into_vec(),
        vec![tag(TagKind::Leaf, 6, 7), tag(TagKind::Group(0), 0, 7)]
    );
    let mut stack = TagStack::new();
    let r = match_sequence(&g, &NoSkip, &children, "let   x = 1", 0, &mut trace, &mut stack);
    assert_eq!(r, Err(NoMatch));
    assert!(stack.is_empty());
}

#[test]
fn an_expression_is_matched_by_its_kind() {
    let g = no_rules();
    let mut trace: Vec<TraceEvent> = Vec::new();
    let mut stack = TagStack::new();
    assert_eq!(match_expr(&g, &Blanks, &Expr::Space, " a", 0, &mut trace, &mut stack), Ok(1));
    assert_eq!(match_expr(&g, &Blanks, &token("a"), " a", 1, &mut trace, &mut stack), Ok(2));
    assert!(stack.is_empty());
    assert_eq!(match_expr(&g, &Blanks, &leaf("^(a)"), " a", 1, &mut trace, &mut stack), Ok(2));
    assert_eq!(stack.len(), 1);
    let seq = Expr::Sequence { children: vec![(token("a"), Flag::Null)] };
    assert_eq!(match_expr(&g, &Blanks, &seq, " a", 1, &mut trace, &mut stack), Ok(2));
    assert_eq!(stack.last(), Some(tag(TagKind::Group(0), 1, 2)));
    let symbol = Expr::Symbol { rule: 3 };
    assert_eq!(match_expr(&g, &Blanks, &symbol, " a", 1, &mut trace, &mut stack), Err(NoMatch));
    assert_eq!(stack.len(), 2);
}

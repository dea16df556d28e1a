use peggen::builder::{Builder, Fmt, Rule};
use peggen::engine::{match_rule, match_sequence, match_symbol, parse, parse_traced, NoMatch};
use peggen::grammar::{Expr, Flag, Grammar};
use peggen::registry::Registry;
use peggen::space::{Blanks, NoSkip};
use peggen::tag::{Tag, TagKind, TagStack};
use peggen::trace::TraceEvent;

fn tag(kind: TagKind, begin: usize, end: usize) -> Tag {
    Tag { kind, begin, end }
}

fn rule(name: &str, body: Vec<(Fmt, Flag)>, trace: bool) -> Rule {
    Rule { name: name.to_string(), body, trace }
}

fn token(text: &str) -> Fmt {
    Fmt::Token { token: text.to_string() }
}

fn regexp(text: &str) -> Fmt {
    Fmt::RegExp { regex: text.to_string() }
}

fn grammar(rules: Vec<Rule>, first: usize) -> Grammar {
    let mut registry = Registry::starting_at(first);
    Builder { ident: "Test".to_string(), rules }.build(&mut registry).unwrap()
}

fn digits(first: usize) -> Grammar {
    grammar(vec![rule("Digits", vec![(regexp("[0-9]"), Flag::Repeat)], false)], first)
}

fn statement(first: usize, trace: bool) -> Grammar {
    grammar(
        vec![
            rule(
                "Stmt",
                vec![
                    (token("if"), Flag::Null),
                    (Fmt::Space, Flag::Null),
                    (Fmt::Symbol { rule: 1 }, Flag::Null),
                ],
                trace,
            ),
            rule("Cond", vec![(token("cond"), Flag::Null)], trace),
        ],
        first,
    )
}

fn parsed(r: Result<(usize, TagStack), NoMatch>) -> Option<(usize, Vec<Tag>)> {
    match r {
        Ok((end, stack)) => Some((end, stack.into_vec())),
        Err(NoMatch) => None,
    }
}

#[test]
fn parse_returns_the_end_and_the_tags() {
    let g = digits(0);
    let r = parsed(parse(&g, &NoSkip, 0, "12a", 0));
    assert_eq!(
        r,
        Some((
            2,
            vec![
                tag(TagKind::Leaf, 0, 1),
                tag(TagKind::Leaf, 1, 2),
                tag(TagKind::Group(2), 0, 2),
                tag(TagKind::Rule(0), 0, 2),
            ]
        ))
    );
}

#[test]
fn the_body_of_the_digits_rule_leaves_two_leaves_and_a_group() {
    let g = digits(0);
    let mut trace: Vec<TraceEvent> = Vec::new();
    let mut stack = TagStack::new();
    let r = match_sequence(&g, &NoSkip, &g.rules[0].body, "12a", 0, &mut trace, &mut stack);
    assert_eq!(r, Ok(2));
    assert_eq!(
        stack.into_vec(),
        vec![
            tag(TagKind::Leaf, 0, 1),
            tag(TagKind::Leaf, 1, 2),
            tag(TagKind::Group(2), 0, 2),
        ]
    );
}

#[test]
fn the_rule_tag_is_on_top_and_spans_the_match() {
    let g = digits(40);
    let (end, tags) = parsed(parse(&g, &NoSkip, 0, "2024-01", 0)).unwrap();
    assert_eq!(end, 4);
    assert_eq!(tags.last(), Some(&tag(TagKind::Rule(40), 0, 4)));
    let (end, tags) = parsed(parse(&g, &NoSkip, 0, "2024-01", 5)).unwrap();
    assert_eq!(end, 7);
    assert_eq!(tags.last(), Some(&tag(TagKind::Rule(40), 5, 7)));
}

#[test]
fn parsing_twice_gives_the_same_tags() {
    let g = statement(7, false);
    let first = parsed(parse(&g, &Blanks, 0, "if cond", 0));
    let second = parsed(parse(&g, &Blanks, 0, "if cond", 0));
    assert!(first.is_some());
    assert_eq!(first, second);
}

#[test]
fn a_failed_parse_gives_no_match() {
    let g = statement(0, false);
    assert_eq!(parsed(parse(&g, &NoSkip, 0, "if cond", 0)), None);
    assert_eq!(parsed(parse(&g, &NoSkip, 0, "ifcon", 0)), None);
    assert_eq!(parsed(parse(&g, &NoSkip, 1, "ifcond", 0)), None);
}

#[test]
fn a_rule_that_does_not_exist_gives_no_match() {
    let g = statement(0, false);
    assert_eq!(parsed(parse(&g, &NoSkip, 2, "ifcond", 0)), None);
}

#[test]
fn a_sequence_with_a_symbol_holds_the_tags_of_the_rule() {
    let g = statement(10, false);
    let mut trace: Vec<TraceEvent> = Vec::new();
    let mut stack = TagStack::new();
    let r = match_sequence(&g, &NoSkip, &g.rules[0].body, "ifcond", 0, &mut trace, &mut stack);
    assert_eq!(r, Ok(6));
    let tags = stack.into_vec();
    assert_eq!(
        tags,
        vec![
            tag(TagKind::Group(0), 2, 6),
            tag(TagKind::Rule(11), 2, 6),
            tag(TagKind::Group(0), 0, 6),
        ]
    );
    let rules: Vec<&Tag> = tags.iter().filter(|t| matches!(t.kind, TagKind::Rule(_))).collect();
    assert_eq!(rules, vec![&tag(TagKind::Rule(11), 2, 6)]);
    let own: Vec<&Tag> =
        tags.iter().filter(|t| matches!(t.kind, TagKind::Group(_)) && t.begin == 0).collect();
    assert_eq!(own, vec![&tag(TagKind::Group(0), 0, 6)]);
}

#[test]
fn a_symbol_hands_on_what_the_rule_returns() {
    let g = statement(10, false);
    let mut trace: Vec<TraceEvent> = Vec::new();
    let mut stack = TagStack::new();
    assert_eq!(match_symbol(&g, &NoSkip, 1, "ifcond", 2, &mut trace, &mut stack), Ok(6));
    assert_eq!(
        stack.into_vec(),
        vec![tag(TagKind::Group(0), 2, 6), tag(TagKind::Rule(11), 2, 6)]
    );
    let mut stack = TagStack::new();
    assert_eq!(match_symbol(&g, &NoSkip, 1, "ifcond", 0, &mut trace, &mut stack), Err(NoMatch));
    assert!(stack.is_empty());
}

#[test]
fn a_match_beyond_the_last_candidate_is_accepted() {
    let g = digits(0);
    let mut trace: Vec<TraceEvent> = Vec::new();
    let mut stack = TagStack::new();
    assert_eq!(match_rule(&g, &NoSkip, 0, "12a", 0, Some(1), &mut trace, &mut stack), Ok(2));
    assert_eq!(stack.last(), Some(tag(TagKind::Rule(0), 0, 2)));
    assert_eq!(stack.len(), 4);
}

#[test]
fn a_match_that_does_not_reach_beyond_the_last_candidate_is_rolled_back() {
    let g = digits(0);
    let mut trace: Vec<TraceEvent> = Vec::new();
    let mut stack = TagStack::new();
    stack.push(tag(TagKind::Leaf, 9, 9));
    assert_eq!(
        match_rule(&g, &NoSkip, 0, "12a", 0, Some(2), &mut trace, &mut stack),
        Err(NoMatch)
    );
    assert_eq!(stack.len(), 1);
    assert_eq!(
        match_rule(&g, &NoSkip, 0, "12a", 0, Some(3), &mut trace, &mut stack),
        Err(NoMatch)
    );
    assert_eq!(stack.into_vec(), vec![tag(TagKind::Leaf, 9, 9)]);
}

#[test]
fn the_longer_of_two_candidates_wins() {
    let g = grammar(
        vec![
            rule("Short", vec![(regexp("[a-z]"), Flag::Null)], false),
            rule("Long", vec![(regexp("[a-z]+"), Flag::Null)], false),
        ],
        0,
    );
    let mut trace: Vec<TraceEvent> = Vec::new();
    let mut stack = TagStack::new();
    let first = match_rule(&g, &NoSkip, 0, "abc", 0, None, &mut trace, &mut stack);
    assert_eq!(first, Ok(1));
    let second = match_rule(&g, &NoSkip, 1, "abc", 0, Some(1), &mut trace, &mut stack);
    assert_eq!(second, Ok(3));
    assert_eq!(stack.last(), Some(tag(TagKind::Rule(1), 0, 3)));
    let mut other = TagStack::new();
    let long = match_rule(&g, &NoSkip, 1, "abc", 0, None, &mut trace, &mut other);
    assert_eq!(long, Ok(3));
    let again = match_rule(&g, &NoSkip, 0, "abc", 0, Some(3), &mut trace, &mut other);
    assert_eq!(again, Err(NoMatch));
    assert_eq!(other.len(), 3);
}

#[test]
fn without_a_candidate_a_match_of_nothing_is_accepted() {
    let g = digits(5);
    let r = parsed(parse(&g, &NoSkip, 0, "abc", 0));
    assert_eq!(r, Some((0, vec![tag(TagKind::Group(0), 0, 0), tag(TagKind::Rule(5), 0, 0)])));
    let mut trace: Vec<TraceEvent> = Vec::new();
    let mut stack = TagStack::new();
    assert_eq!(
        match_rule(&g, &NoSkip, 0, "abc", 0, Some(0), &mut trace, &mut stack),
        Err(NoMatch)
    );
    assert!(stack.is_empty());
}

#[test]
fn a_rule_that_calls_itself_before_it_consumes_does_not_run_for_ever() {
    let g = grammar(
        vec![rule(
            "Chain",
            vec![(Fmt::Symbol { rule: 0 }, Flag::OrNot), (token("x"), Flag::Null)],
            false,
        )],
        0,
    );
    let r = parsed(parse(&g, &NoSkip, 0, "xx", 0));
    assert_eq!(r, Some((1, vec![tag(TagKind::Group(0), 0, 1), tag(TagKind::Rule(0), 0, 1)])));
}

#[test]
fn two_rules_that_call_each_other_before_they_consume_do_not_match() {
    let g = grammar(
        vec![
            rule("Ping", vec![(Fmt::Symbol { rule: 1 }, Flag::Null)], false),
            rule("Pong", vec![(Fmt::Symbol { rule: 0 }, Flag::Null)], false),
        ],
        0,
    );
    assert_eq!(parsed(parse(&g, &NoSkip, 0, "x", 0)), None);
    assert_eq!(parsed(parse(&g, &NoSkip, 1, "x", 1)), None);
}

#[test]
fn a_rule_may_call_itself_once_it_has_consumed() {
    let g = grammar(
        vec![rule(
            "Nest",
            vec![
                (token("("), Flag::Null),
                (Fmt::Symbol { rule: 0 }, Flag::OrNot),
                (token(")"), Flag::Null),
            ],
            false,
        )],
        3,
    );
    let r = parsed(parse(&g, &NoSkip, 0, "((()))", 0));
    assert_eq!(
        r,
        Some((
            6,
            vec![
                tag(TagKind::Group(0), 2, 4),
                tag(TagKind::Rule(3), 2, 4),
                tag(TagKind::Group(1), 1, 5),
                tag(TagKind::Rule(3), 1, 5),
                tag(TagKind::Group(1), 0, 6),
                tag(TagKind::Rule(3), 0, 6),
            ]
        ))
    );
    assert_eq!(parsed(parse(&g, &NoSkip, 0, "(()", 0)), None);
}

#[test]
fn a_traced_rule_reports_entry_and_exit() {
    let g = statement(0, true);
    let mut trace: Vec<TraceEvent> = Vec::new();
    let r = parsed(parse_traced(&g, &Blanks, 0, "if cond", 0, &mut trace));
    assert_eq!(r.map(|p| p.0), Some(7));
    assert_eq!(
        trace,
        vec![
            TraceEvent::Enter { rule: 0, pos: 0 },
            TraceEvent::Enter { rule: 1, pos: 3 },
            TraceEvent::Exit { rule: 1, pos: 7, matched: true },
            TraceEvent::Exit { rule: 0, pos: 7, matched: true },
        ]
    );
}

#[test]
fn a_traced_rule_reports_a_failure_too() {
    let g = statement(0, true);
    let mut trace: Vec<TraceEvent> = vec![TraceEvent::Enter { rule: 9, pos: 9 }];
    let r = parsed(parse_traced(&g, &Blanks, 0, "if then", 0, &mut trace));
    assert_eq!(r, None);
    assert_eq!(
        trace,
        vec![
            TraceEvent::Enter { rule: 9, pos: 9 },
            TraceEvent::Enter { rule: 0, pos: 0 },
            TraceEvent::Enter { rule: 1, pos: 3 },
            TraceEvent::Exit { rule: 1, pos: 3, matched: false },
            TraceEvent::Exit { rule: 0, pos: 0, matched: false },
        ]
    );
}

#[test]
fn tracing_does_not_change_the_match() {
    let quiet = statement(0, false);
    let loud = statement(0, true);
    let mut trace: Vec<TraceEvent> = Vec::new();
    let silent = parsed(parse_traced(&quiet, &Blanks, 0, "if  cond;", 0, &mut trace));
    assert!(trace.is_empty());
    let traced = parsed(parse_traced(&loud, &Blanks, 0, "if  cond;", 0, &mut trace));
    assert!(!trace.is_empty());
    assert!(silent.is_some());
    assert_eq!(silent, traced);
    assert_eq!(silent, parsed(parse(&loud, &Blanks, 0, "if  cond;", 0)));
}

#[test]
fn a_leaf_in_a_built_grammar_is_anchored() {
    let g = grammar(vec![rule("Word", vec![(regexp("[a-z]+"), Flag::Null)], false)], 0);
    assert_eq!(parsed(parse(&g, &NoSkip, 0, "12ab", 0)), None);
    assert_eq!(parsed(parse(&g, &NoSkip, 0, "12ab", 2)).map(|p| p.0), Some(4));
    match &g.rules[0].body[0].0 {
        Expr::RegExp { regex } => assert_eq!(regex.as_str(), "^([a-z]+)"),
        _ => panic!("the body holds a regular expression"),
    }
}

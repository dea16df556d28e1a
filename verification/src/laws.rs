//! What holds of every match, proved from the definitions of the outcomes.

use crate::engine::{parse, NoMatch};
use crate::grammar::{Expr, Flag, Grammar};
use crate::semantics::{
    expr_outcome, lands, moves, nesting, repeat_from, rule_outcome, seq_from, seq_outcome,
    space_end, step, Outcome, Progress,
};
use crate::space::Space;
use crate::tag::{Tag, TagKind, TagStack};
use vstd::prelude::*;
use vstd::utf8::*;

verus! {

/// A rule that matches leaves its own tag on top: a rule tag with the
/// rule's identity that spans the match from its start to its end.
pub proof fn lemma_rule_tag_is_outermost<S: Space>(
    g: Grammar,
    s: S,
    input: Seq<u8>,
    rule: usize,
    pos: usize,
    last: Option<usize>,
    anchor: usize,
    depth: usize,
)
    ensures
        ({
            let o = rule_outcome(g, s, input, rule, pos, last, anchor, depth);
            o.end matches Some(end) ==> o.tags.len() > 0 && o.tags.last() == Tag {
                kind: TagKind::Rule(g.spec_identity(rule)),
                begin: pos,
                end,
            }
        }),
{
}

/// Parsing is a function of its arguments: any two results that a parse of
/// the same input with the same grammar may give have the same end and the
/// same tags.
pub proof fn lemma_parse_is_deterministic<S: Space>(
    g: &Grammar,
    space: &S,
    rule: usize,
    input: &str,
    start: usize,
    first: Result<(usize, TagStack), NoMatch>,
    second: Result<(usize, TagStack), NoMatch>,
)
    requires
        call_ensures(parse::<S>, (g, space, rule, input, start), first),
        call_ensures(parse::<S>, (g, space, rule, input, start), second),
    ensures
        first is Ok <==> second is Ok,
        first matches Ok((end1, stack1)) ==> second matches Ok((end2, stack2)) && end1 == end2
            && stack1@ == stack2@,
{
}

/// Skipping whitespace always succeeds, whatever the policy.
pub proof fn lemma_space_always_matches<S: Space>(s: S, input: Seq<u8>, pos: usize)
    requires
        valid_utf8(input),
        pos <= input.len(),
        is_char_boundary(input, pos as int),
    ensures
        space_end(s, input, pos) is Some,
{
    s.skip_lands(input, pos as int);
}

/// A sequence that fails leaves no tag, whatever its optional and repeated
/// children had pushed before the failure.
pub proof fn lemma_failed_sequence_leaves_no_tags<S: Space>(
    g: Grammar,
    s: S,
    input: Seq<u8>,
    children: Seq<(Expr, Flag)>,
    i: int,
    begin: usize,
    at: Progress,
    anchor: usize,
    depth: usize,
)
    ensures
        ({
            let o = seq_from(g, s, input, children, i, begin, at, anchor, depth);
            o.end is None ==> o.tags == Seq::<Tag>::empty()
        }),
    decreases children.len() - i,
{
    if 0 <= i < children.len() {
        let child = children[i].0;
        let o = expr_outcome(g, s, input, child, at.pos, anchor, depth);
        match children[i].1 {
            Flag::Null => {
                if moves(input, at, o) {
                    let next = Progress { count: at.count, ..step(input, at, o) };
                    lemma_failed_sequence_leaves_no_tags(
                        g,
                        s,
                        input,
                        children,
                        i + 1,
                        begin,
                        next,
                        anchor,
                        depth,
                    );
                }
            },
            Flag::OrNot => {
                lemma_failed_sequence_leaves_no_tags(
                    g,
                    s,
                    input,
                    children,
                    i + 1,
                    begin,
                    step(input, at, o),
                    anchor,
                    depth,
                );
            },
            Flag::Repeat => {
                let next = repeat_from(g, s, input, child, at, anchor, depth);
                if lands(input, at.pos, next.pos) {
                    lemma_failed_sequence_leaves_no_tags(
                        g,
                        s,
                        input,
                        children,
                        i + 1,
                        begin,
                        next,
                        anchor,
                        depth,
                    );
                }
            },
        }
    }
}

/// A repeated child that does not match even once changes neither the
/// position nor the match count, and pushes nothing.
pub proof fn lemma_repeat_of_nothing<S: Space>(
    g: Grammar,
    s: S,
    input: Seq<u8>,
    child: Expr,
    at: Progress,
    anchor: usize,
    depth: usize,
)
    requires
        expr_outcome(g, s, input, child, at.pos, anchor, depth).end is None,
    ensures
        ({
            let next = repeat_from(g, s, input, child, at, anchor, depth);
            &&& next.pos == at.pos
            &&& next.count == at.count
            &&& next.tags == at.tags
        }),
{
}

/// A sequence of one repeated child that does not match even once matches
/// nothing: it ends where it began and pushes a group tag that counts no
/// match.
pub proof fn lemma_empty_repetition_matches<S: Space>(
    g: Grammar,
    s: S,
    input: Seq<u8>,
    child: Expr,
    pos: usize,
    anchor: usize,
    depth: usize,
)
    requires
        pos <= input.len(),
        expr_outcome(g, s, input, child, pos, anchor, depth).end is None,
    ensures
        ({
            let o = seq_outcome(g, s, input, seq![(child, Flag::Repeat)], pos, anchor, depth);
            &&& o.end == Some(pos)
            &&& o.tags == seq![Tag { kind: TagKind::Group(0), begin: pos, end: pos }]
        }),
{
    let children = seq![(child, Flag::Repeat)];
    let at = Progress { pos, count: 0, tags: Seq::empty(), trace: Seq::empty() };
    let next = repeat_from(g, s, input, child, at, anchor, depth);
    assert(children[0].0 == child);
    let o = seq_from(g, s, input, children, 0, pos, at, anchor, depth);
    assert(o == seq_from(g, s, input, children, 1, pos, next, anchor, depth));
    assert(o.tags =~= seq![Tag { kind: TagKind::Group(0), begin: pos, end: pos }]);
}

/// The longest-match gate: with an earlier candidate that reached `last`,
/// a rule matches as it would without one where it ends beyond `last`;
/// otherwise it fails and leaves no tag.
pub proof fn lemma_longest_match_gate<S: Space>(
    g: Grammar,
    s: S,
    input: Seq<u8>,
    rule: usize,
    pos: usize,
    last: usize,
    anchor: usize,
    depth: usize,
)
    ensures
        ({
            let free = rule_outcome(g, s, input, rule, pos, None, anchor, depth);
            let gated = rule_outcome(g, s, input, rule, pos, Some(last), anchor, depth);
            if free.end matches Some(end) && end > last {
                gated.end == free.end && gated.tags == free.tags
            } else {
                gated.end is None && gated.tags == Seq::<Tag>::empty()
            }
        }),
{
}

/// `other` is `g` with other trace flags.
pub open spec fn traced_otherwise(g: Grammar, other: Grammar) -> bool {
    &&& g.num == other.num
    &&& g.rules.len() == other.rules.len()
    &&& forall|i: int|
        0 <= i < g.rules.len() ==> (#[trigger] g.rules[i]).body == other.rules[i].body
}

/// Two outcomes with the same end and the same tags.
pub open spec fn same_match(a: Outcome, b: Outcome) -> bool {
    a.end == b.end && a.tags == b.tags
}

/// Two states of progress with the same position, count and tags.
pub open spec fn same_progress(a: Progress, b: Progress) -> bool {
    a.pos == b.pos && a.count == b.count && a.tags == b.tags
}

/// Tracing has no effect on matching: an expression matches alike under
/// two grammars that differ in nothing but which rules are traced.
pub proof fn lemma_trace_is_silent<S: Space>(
    g: Grammar,
    other: Grammar,
    s: S,
    input: Seq<u8>,
    e: Expr,
    pos: usize,
    anchor: usize,
    depth: usize,
)
    requires
        traced_otherwise(g, other),
    ensures
        same_match(
            expr_outcome(g, s, input, e, pos, anchor, depth),
            expr_outcome(other, s, input, e, pos, anchor, depth),
        ),
    decreases input.len() - pos, g.rules.len() - nesting(anchor, depth, pos), 1int, e, 0int,
{
    match e {
        Expr::Symbol { rule } => {
            lemma_trace_is_silent_in_rules(g, other, s, input, rule, pos, None, anchor, depth);
        },
        Expr::Sequence { children } => {
            let at = Progress { pos, count: 0, tags: Seq::empty(), trace: Seq::empty() };
            lemma_trace_is_silent_in_sequences(
                g,
                other,
                s,
                input,
                children@,
                0,
                pos,
                at,
                at,
                anchor,
                depth,
            );
        },
        _ => {},
    }
}

/// Tracing has no effect on matching a rule.
pub proof fn lemma_trace_is_silent_in_rules<S: Space>(
    g: Grammar,
    other: Grammar,
    s: S,
    input: Seq<u8>,
    rule: usize,
    pos: usize,
    last: Option<usize>,
    anchor: usize,
    depth: usize,
)
    requires
        traced_otherwise(g, other),
    ensures
        same_match(
            rule_outcome(g, s, input, rule, pos, last, anchor, depth),
            rule_outcome(other, s, input, rule, pos, last, anchor, depth),
        ),
    decreases input.len() - pos, g.rules.len() - nesting(anchor, depth, pos), 0int, Expr::Space,
        0int,
{
    if rule < g.rules.len() && pos <= input.len() && nesting(anchor, depth, pos) < g.rules.len() {
        let at = Progress { pos, count: 0, tags: Seq::empty(), trace: Seq::empty() };
        assert(g.rules[rule as int].body@ == other.rules[rule as int].body@);
        lemma_trace_is_silent_in_sequences(
            g,
            other,
            s,
            input,
            g.rules[rule as int].body@,
            0,
            pos,
            at,
            at,
            pos,
            (nesting(anchor, depth, pos) + 1) as usize,
        );
    }
}

/// Tracing has no effect on matching the rest of a sequence.
pub proof fn lemma_trace_is_silent_in_sequences<S: Space>(
    g: Grammar,
    other: Grammar,
    s: S,
    input: Seq<u8>,
    children: Seq<(Expr, Flag)>,
    i: int,
    begin: usize,
    at: Progress,
    other_at: Progress,
    anchor: usize,
    depth: usize,
)
    requires
        traced_otherwise(g, other),
        same_progress(at, other_at),
    ensures
        same_match(
            seq_from(g, s, input, children, i, begin, at, anchor, depth),
            seq_from(other, s, input, children, i, begin, other_at, anchor, depth),
        ),
    decreases input.len() - at.pos, g.rules.len() - nesting(anchor, depth, at.pos), 1int,
        children, children.len() - i,
{
    if 0 <= i < children.len() {
        let child = children[i].0;
        let o = expr_outcome(g, s, input, child, at.pos, anchor, depth);
        let p = expr_outcome(other, s, input, child, at.pos, anchor, depth);
        match children[i].1 {
            Flag::Null => {
                lemma_trace_is_silent(g, other, s, input, child, at.pos, anchor, depth);
                if moves(input, at, o) {
                    lemma_trace_is_silent_in_sequences(
                        g,
                        other,
                        s,
                        input,
                        children,
                        i + 1,
                        begin,
                        Progress { count: at.count, ..step(input, at, o) },
                        Progress { count: other_at.count, ..step(input, other_at, p) },
                        anchor,
                        depth,
                    );
                }
            },
            Flag::OrNot => {
                lemma_trace_is_silent(g, other, s, input, child, at.pos, anchor, depth);
                lemma_trace_is_silent_in_sequences(
                    g,
                    other,
                    s,
                    input,
                    children,
                    i + 1,
                    begin,
                    step(input, at, o),
                    step(input, other_at, p),
                    anchor,
                    depth,
                );
            },
            Flag::Repeat => {
                lemma_trace_is_silent_in_repetitions(
                    g,
                    other,
                    s,
                    input,
                    child,
                    at,
                    other_at,
                    anchor,
                    depth,
                );
                let next = repeat_from(g, s, input, child, at, anchor, depth);
                let other_next = repeat_from(other, s, input, child, other_at, anchor, depth);
                if lands(input, at.pos, next.pos) {
                    lemma_trace_is_silent_in_sequences(
                        g,
                        other,
                        s,
                        input,
                        children,
                        i + 1,
                        begin,
                        next,
                        other_next,
                        anchor,
                        depth,
                    );
                }
            },
        }
    }
}

/// Tracing has no effect on matching a repeated child.
pub proof fn lemma_trace_is_silent_in_repetitions<S: Space>(
    g: Grammar,
    other: Grammar,
    s: S,
    input: Seq<u8>,
    child: Expr,
    at: Progress,
    other_at: Progress,
    anchor: usize,
    depth: usize,
)
    requires
        traced_otherwise(g, other),
        same_progress(at, other_at),
    ensures
        same_progress(
            repeat_from(g, s, input, child, at, anchor, depth),
            repeat_from(other, s, input, child, other_at, anchor, depth),
        ),
    decreases input.len() - at.pos, g.rules.len() - nesting(anchor, depth, at.pos), 1int, child,
        1int,
{
    lemma_trace_is_silent(g, other, s, input, child, at.pos, anchor, depth);
    let o = expr_outcome(g, s, input, child, at.pos, anchor, depth);
    let p = expr_outcome(other, s, input, child, at.pos, anchor, depth);
    let next = step(input, at, o);
    if moves(input, at, o) && next.pos > at.pos {
        lemma_trace_is_silent_in_repetitions(
            g,
            other,
            s,
            input,
            child,
            next,
            step(input, other_at, p),
            anchor,
            depth,
        );
    }
}

/// A match ends between the position at which it began and the end of
/// the input.
pub proof fn lemma_match_lands<S: Space>(
    g: Grammar,
    s: S,
    input: Seq<u8>,
    e: Expr,
    pos: usize,
    anchor: usize,
    depth: usize,
)
    requires
        pos <= input.len() <= usize::MAX,
    ensures
        expr_outcome(g, s, input, e, pos, anchor, depth).end matches Some(end) ==> lands(
            input,
            pos,
            end,
        ),
    decreases input.len() - pos, g.rules.len() - nesting(anchor, depth, pos), 1int, e, 0int,
{
    match e {
        Expr::Symbol { rule } => {
            lemma_rule_match_lands(g, s, input, rule, pos, None, anchor, depth);
        },
        Expr::Sequence { children } => {
            let at = Progress { pos, count: 0, tags: Seq::empty(), trace: Seq::empty() };
            lemma_sequence_match_lands(g, s, input, children@, 0, pos, at, anchor, depth);
        },
        _ => {},
    }
}

/// A match of a rule ends between the position at which it began and the
/// end of the input.
pub proof fn lemma_rule_match_lands<S: Space>(
    g: Grammar,
    s: S,
    input: Seq<u8>,
    rule: usize,
    pos: usize,
    last: Option<usize>,
    anchor: usize,
    depth: usize,
)
    requires
        pos <= input.len() <= usize::MAX,
    ensures
        rule_outcome(g, s, input, rule, pos, last, anchor, depth).end matches Some(end)
            ==> lands(input, pos, end),
    decreases input.len() - pos, g.rules.len() - nesting(anchor, depth, pos), 0int, Expr::Space,
        0int,
{
    if rule < g.rules.len() && nesting(anchor, depth, pos) < g.rules.len() {
        let at = Progress { pos, count: 0, tags: Seq::empty(), trace: Seq::empty() };
        lemma_sequence_match_lands(
            g,
            s,
            input,
            g.rules[rule as int].body@,
            0,
            pos,
            at,
            pos,
            (nesting(anchor, depth, pos) + 1) as usize,
        );
    }
}

/// A match of a sequence ends between the position that the sequence has
/// reached and the end of the input.
pub proof fn lemma_sequence_match_lands<S: Space>(
    g: Grammar,
    s: S,
    input: Seq<u8>,
    children: Seq<(Expr, Flag)>,
    i: int,
    begin: usize,
    at: Progress,
    anchor: usize,
    depth: usize,
)
    requires
        at.pos <= input.len() <= usize::MAX,
    ensures
        seq_from(g, s, input, children, i, begin, at, anchor, depth).end matches Some(end)
            ==> lands(input, at.pos, end),
    decreases input.len() - at.pos, g.rules.len() - nesting(anchor, depth, at.pos), 1int,
        children, children.len() - i,
{
    if 0 <= i < children.len() {
        let child = children[i].0;
        let o = expr_outcome(g, s, input, child, at.pos, anchor, depth);
        match children[i].1 {
            Flag::Null => {
                if moves(input, at, o) {
                    let next = Progress { count: at.count, ..step(input, at, o) };
                    lemma_sequence_match_lands(
                        g,
                        s,
                        input,
                        children,
                        i + 1,
                        begin,
                        next,
                        anchor,
                        depth,
                    );
                }
            },
            Flag::OrNot => {
                lemma_sequence_match_lands(
                    g,
                    s,
                    input,
                    children,
                    i + 1,
                    begin,
                    step(input, at, o),
                    anchor,
                    depth,
                );
            },
            Flag::Repeat => {
                let next = repeat_from(g, s, input, child, at, anchor, depth);
                if lands(input, at.pos, next.pos) {
                    lemma_sequence_match_lands(
                        g,
                        s,
                        input,
                        children,
                        i + 1,
                        begin,
                        next,
                        anchor,
                        depth,
                    );
                }
            },
        }
    }
}

/// A repetition ends between the position at which it began and the end of
/// the input: the sequence that holds it never fails on its account.
pub proof fn lemma_repetition_lands<S: Space>(
    g: Grammar,
    s: S,
    input: Seq<u8>,
    child: Expr,
    at: Progress,
    anchor: usize,
    depth: usize,
)
    requires
        at.pos <= input.len() <= usize::MAX,
    ensures
        lands(input, at.pos, repeat_from(g, s, input, child, at, anchor, depth).pos),
    decreases input.len() - at.pos, g.rules.len() - nesting(anchor, depth, at.pos), 1int, child,
        1int,
{
    let o = expr_outcome(g, s, input, child, at.pos, anchor, depth);
    let next = step(input, at, o);
    if moves(input, at, o) && next.pos > at.pos {
        lemma_repetition_lands(g, s, input, child, next, anchor, depth);
    }
}

} // verus!

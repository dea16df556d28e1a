//! The rule executor: one matching operation per kind of expression.
//!
//! Every operation returns the position after the match, or [`NoMatch`] and
//! leaves the tag stack as it found it. Positions are byte offsets into the
//! input and always lie between two characters.

use crate::boundary::{lemma_boundary_after_literal, lemma_boundary_of_rest};
use crate::grammar::{Expr, Flag, Grammar};
use crate::pattern::find;
use crate::semantics::{
    accepted, bump, expr_outcome, found_end, leaf_end, nesting, repeat_from, rule_outcome,
    seq_from, seq_outcome, space_end, token_end, Outcome, Progress,
};
use crate::space::Space;
use crate::tag::{Mark, Tag, TagKind, TagStack};
use crate::trace::TraceEvent;
use regex::Regex;
use vstd::prelude::*;
use vstd::string::*;
use vstd::utf8::*;

verus! {

/// The one way in which matching fails: the expression does not match here.
#[derive(Clone, Copy, Debug, PartialEq, Eq, Structural)]
pub struct NoMatch;

/// A position inside `input` that lies between two characters.
pub open spec fn on_boundary(input: Seq<u8>, pos: usize) -> bool {
    &&& pos <= input.len()
    &&& is_char_boundary(input, pos as int)
}

/// The result `r` and the change of the tag stack and of the trace are
/// those of the outcome `o`.
pub open spec fn follows(
    o: Outcome,
    r: Result<usize, NoMatch>,
    stack0: Seq<Tag>,
    stack1: Seq<Tag>,
    trace0: Seq<TraceEvent>,
    trace1: Seq<TraceEvent>,
) -> bool {
    &&& r matches Ok(end) ==> o.end == Some(end)
    &&& r is Err ==> o.end is None && stack1 =~= stack0
    &&& stack1 =~= stack0 + o.tags
    &&& trace1 =~= trace0 + o.trace
}

/// Matches `literal` at `pos`: the input has to continue with exactly the
/// bytes of `literal`. Pushes no tag.
pub fn match_token(literal: &str, input: &str, pos: usize) -> (r: Result<usize, NoMatch>)
    requires
        on_boundary(input.spec_bytes(), pos),
    ensures
        r matches Ok(end) ==> token_end(input.spec_bytes(), pos, literal.spec_bytes()) == Some(end)
            && on_boundary(input.spec_bytes(), end) && end == pos + literal.spec_bytes().len(),
        r is Err ==> token_end(input.spec_bytes(), pos, literal.spec_bytes()) is None,
{
    let bytes = input.as_bytes();
    let lit = literal.as_bytes();
    let n: usize = lit.len();
    if n > bytes.len() - pos {
        return Err(NoMatch);
    }
    let mut i: usize = 0;
    while i < n
        invariant
            i <= n,
            n == lit@.len(),
            pos + n <= bytes@.len() <= usize::MAX,
            bytes@ == input.spec_bytes(),
            lit@ == literal.spec_bytes(),
            bytes@.subrange(pos as int, pos + i) == lit@.subrange(0, i as int),
        decreases n - i,
    {
        if bytes[pos + i] != lit[i] {
            proof {
                let window = bytes@.subrange(pos as int, pos + n);
                assert(window[i as int] != lit@[i as int]);
            }
            return Err(NoMatch);
        }
        proof {
            assert(bytes@.subrange(pos as int, pos + i + 1) =~= bytes@.subrange(
                pos as int,
                pos + i,
            ).push(bytes@[pos + i]));
            assert(lit@.subrange(0, i + 1) =~= lit@.subrange(0, i as int).push(lit@[i as int]));
        }
        i += 1;
    }
    proof {
        assert(lit@.subrange(0, n as int) =~= lit@);
        encode_utf8_valid_utf8(input@);
        encode_utf8_valid_utf8(literal@);
        lemma_boundary_after_literal(bytes@, pos as int, lit@);
    }
    Ok(pos + n)
}

/// Matches `regex` at `pos`: the expression is run on the rest of the input
/// and has to match a prefix of it. Pushes a leaf tag with the matched span.
pub fn match_regexp(regex: &Regex, input: &str, pos: usize, stack: &mut TagStack) -> (r: Result<
    usize,
    NoMatch,
>)
    requires
        on_boundary(input.spec_bytes(), pos),
    ensures
        r matches Ok(end) ==> leaf_end(input.spec_bytes(), pos, *regex) == Some(end)
            && on_boundary(input.spec_bytes(), end) && pos <= end && final(stack)@ == old(
            stack,
        )@.push(Tag { kind: TagKind::Leaf, begin: pos, end }),
        r is Err ==> leaf_end(input.spec_bytes(), pos, *regex) is None && final(stack)@ == old(
            stack,
        )@,
{
    let total: usize = input.as_bytes().len();
    let (_, rest) = input.split_at(pos);
    proof {
        assert(rest.spec_bytes() == input.spec_bytes().subrange(pos as int, total as int));
        encode_utf8_decode_utf8(rest@);
        encode_utf8_valid_utf8(input@);
    }
    let found = find(regex, rest);
    proof {
        if let Some((start, end)) = found {
            if end <= total - pos {
                lemma_boundary_of_rest(input.spec_bytes(), pos as int, end as int);
            }
        }
    }
    leaf_from_match(found, total, pos, stack)
}

/// What a leaf at `pos` makes of what its regular expression found in the
/// rest of an input of `total` bytes. The leaf matches where the expression
/// matched from the very start of the rest; it then ends where that match
/// ends and pushes a leaf tag with its span.
pub fn leaf_from_match(
    found: Option<(usize, usize)>,
    total: usize,
    pos: usize,
    stack: &mut TagStack,
) -> (r: Result<usize, NoMatch>)
    requires
        pos <= total,
    ensures
        r.ok() == found_end(found, total as nat, pos),
        match r {
            Ok(end) => found matches Some((start, len)) && start == 0 && end == pos + len
                && final(stack)@ == old(stack)@.push(
                Tag { kind: TagKind::Leaf, begin: pos, end },
            ),
            Err(_) => final(stack)@ == old(stack)@,
        },
{
    match found {
        Some((start, end)) => {
            if start == 0 && end <= total - pos {
                let end: usize = pos + end;
                stack.push(Tag { kind: TagKind::Leaf, begin: pos, end });
                Ok(end)
            } else {
                Err(NoMatch)
            }
        },
        None => Err(NoMatch),
    }
}

/// The longest-match gate: whether a match that ends at `end` is accepted
/// when an earlier candidate at the same start reached `last`.
pub fn accepts(last: Option<usize>, end: usize) -> (b: bool)
    ensures
        b == accepted(last, end),
{
    match last {
        Some(l) => end > l,
        None => true,
    }
}

/// The match count after one more optional or repeated child has matched.
fn bump_count(count: usize) -> (n: usize)
    ensures
        n == bump(count),
{
    if count < usize::MAX {
        count + 1
    } else {
        count
    }
}

/// Matches `expr` at `pos`, while `depth` attempts at rules that began at
/// `anchor` are under way.
fn expr_at<S: Space>(
    g: &Grammar,
    space: &S,
    input: &str,
    expr: &Expr,
    pos: usize,
    anchor: usize,
    depth: usize,
    trace: &mut Vec<TraceEvent>,
    stack: &mut TagStack,
) -> (r: Result<usize, NoMatch>)
    requires
        g.wf(),
        on_boundary(input.spec_bytes(), pos),
    ensures
        follows(
            expr_outcome(*g, *space, input.spec_bytes(), *expr, pos, anchor, depth),
            r,
            old(stack)@,
            final(stack)@,
            old(trace)@,
            final(trace)@,
        ),
        r matches Ok(end) ==> pos <= end && on_boundary(input.spec_bytes(), end),
    decreases
            input.spec_bytes().len() - pos,
            g.rules.len() - nesting(anchor, depth, pos),
            1int,
            *expr,
            0int,
{
    match expr {
        Expr::Space => match_space(space, input, pos),
        Expr::Token { literal } => match_token(literal.as_str(), input, pos),
        Expr::Symbol { rule } => rule_at(
            g,
            space,
            input,
            *rule,
            pos,
            None,
            anchor,
            depth,
            trace,
            stack,
        ),
        Expr::RegExp { regex } => match_regexp(regex, input, pos, stack),
        Expr::Sequence { children } => sequence_at(
            g,
            space,
            input,
            children,
            pos,
            anchor,
            depth,
            trace,
            stack,
        ),
    }
}

/// Matches rule `rule` at `pos`, where an earlier candidate at the same
/// start reached `last`.
fn rule_at<S: Space>(
    g: &Grammar,
    space: &S,
    input: &str,
    rule: usize,
    pos: usize,
    last: Option<usize>,
    anchor: usize,
    depth: usize,
    trace: &mut Vec<TraceEvent>,
    stack: &mut TagStack,
) -> (r: Result<usize, NoMatch>)
    requires
        g.wf(),
        on_boundary(input.spec_bytes(), pos),
    ensures
        follows(
            rule_outcome(*g, *space, input.spec_bytes(), rule, pos, last, anchor, depth),
            r,
            old(stack)@,
            final(stack)@,
            old(trace)@,
            final(trace)@,
        ),
        r matches Ok(end) ==> pos <= end && on_boundary(input.spec_bytes(), end),
    decreases
            input.spec_bytes().len() - pos,
            g.rules.len() - nesting(anchor, depth, pos),
            0int,
            Expr::Space,
            0int,
{
    if rule >= g.rules.len() {
        return Err(NoMatch);
    }
    let nest: usize = if pos == anchor {
        depth
    } else {
        0
    };
    let traced: bool = g.rules[rule].trace;
    if traced {
        trace.push(TraceEvent::Enter { rule, pos });
    }
    if nest >= g.rules.len() {
        if traced {
            trace.push(TraceEvent::Exit { rule, pos, matched: false });
        }
        return Err(NoMatch);
    }
    let mark: Mark = stack.checkpoint();
    let body = sequence_at(
        g,
        space,
        input,
        &g.rules[rule].body,
        pos,
        pos,
        nest + 1,
        trace,
        stack,
    );
    match body {
        Ok(end) if accepts(last, end) => {
            stack.push(Tag { kind: TagKind::Rule(g.identity(rule)), begin: pos, end });
            if traced {
                trace.push(TraceEvent::Exit { rule, pos: end, matched: true });
            }
            Ok(end)
        },
        _ => {
            stack.truncate(mark);
            if traced {
                trace.push(TraceEvent::Exit { rule, pos, matched: false });
            }
            Err(NoMatch)
        },
    }
}

/// Matches `children` as a sequence that begins at `pos`.
fn sequence_at<S: Space>(
    g: &Grammar,
    space: &S,
    input: &str,
    children: &Vec<(Expr, Flag)>,
    pos: usize,
    anchor: usize,
    depth: usize,
    trace: &mut Vec<TraceEvent>,
    stack: &mut TagStack,
) -> (r: Result<usize, NoMatch>)
    requires
        g.wf(),
        on_boundary(input.spec_bytes(), pos),
    ensures
        follows(
            seq_outcome(*g, *space, input.spec_bytes(), children@, pos, anchor, depth),
            r,
            old(stack)@,
            final(stack)@,
            old(trace)@,
            final(trace)@,
        ),
        r matches Ok(end) ==> pos <= end && on_boundary(input.spec_bytes(), end),
    decreases
            input.spec_bytes().len() - pos,
            g.rules.len() - nesting(anchor, depth, pos),
            1int,
            *children,
            children.len() + 1,
{
    let mark: Mark = stack.checkpoint();
    let ghost stack0 = stack@;
    let ghost trace0 = trace@;
    let ghost bytes = input.spec_bytes();
    let ghost mut tags = Seq::<Tag>::empty();
    let ghost mut events = Seq::<TraceEvent>::empty();
    let mut at: usize = pos;
    let mut count: usize = 0;
    let mut i: usize = 0;
    while i < children.len()
        invariant
            g.wf(),
            bytes == input.spec_bytes(),
            i <= children.len(),
            pos <= at,
            on_boundary(bytes, at),
            mark == stack0.len(),
            stack0 == old(stack)@,
            trace0 == old(trace)@,
            stack@ == stack0 + tags,
            trace@ == trace0 + events,
            seq_from(
                *g,
                *space,
                bytes,
                children@,
                i as int,
                pos,
                Progress { pos: at, count, tags, trace: events },
                anchor,
                depth,
            ) == seq_outcome(*g, *space, bytes, children@, pos, anchor, depth),
        decreases children.len() - i,
    {
        let ghost here = Progress { pos: at, count, tags, trace: events };
        match children[i].1 {
            Flag::Null => {
                let ghost child = children[i as int].0;
                let ghost o = expr_outcome(*g, *space, bytes, child, at, anchor, depth);
                match expr_at(g, space, input, &children[i].0, at, anchor, depth, trace, stack) {
                    Ok(end) => {
                        proof {
                            assert(stack@ =~= stack0 + (tags + o.tags));
                            assert(trace@ =~= trace0 + (events + o.trace));
                            tags = tags + o.tags;
                            events = events + o.trace;
                        }
                        at = end;
                    },
                    Err(_) => {
                        proof {
                            assert(trace@ =~= trace0 + (events + o.trace));
                            assert(stack@.subrange(0, mark as int) =~= stack0);
                        }
                        stack.truncate(mark);
                        return Err(NoMatch);
                    },
                }
            },
            Flag::OrNot => {
                let ghost child = children[i as int].0;
                let ghost o = expr_outcome(*g, *space, bytes, child, at, anchor, depth);
                let before: Mark = stack.checkpoint();
                match expr_at(g, space, input, &children[i].0, at, anchor, depth, trace, stack) {
                    Ok(end) => {
                        proof {
                            assert(stack@ =~= stack0 + (tags + o.tags));
                            assert(trace@ =~= trace0 + (events + o.trace));
                            tags = tags + o.tags;
                            events = events + o.trace;
                        }
                        at = end;
                        count = bump_count(count);
                    },
                    Err(_) => {
                        proof {
                            assert(trace@ =~= trace0 + (events + o.trace));
                            assert(stack@.subrange(0, before as int) =~= stack@);
                            events = events + o.trace;
                        }
                        stack.truncate(before);
                    },
                }
            },
            Flag::Repeat => {
                let ghost child = children[i as int].0;
                let ghost next = repeat_from(*g, *space, bytes, child, here, anchor, depth);
                let (end, n) = repeat_at(
                    g,
                    space,
                    input,
                    &children[i].0,
                    at,
                    count,
                    anchor,
                    depth,
                    trace,
                    stack,
                    Ghost(here),
                    Ghost(stack0),
                    Ghost(trace0),
                );
                proof {
                    tags = next.tags;
                    events = next.trace;
                }
                at = end;
                count = n;
            },
        }
        i += 1;
    }
    proof {
        assert(stack@.push(Tag { kind: TagKind::Group(count), begin: pos, end: at }) =~= stack0
            + tags.push(Tag { kind: TagKind::Group(count), begin: pos, end: at }));
    }
    stack.push(Tag { kind: TagKind::Group(count), begin: pos, end: at });
    Ok(at)
}

/// Matches `child` as often as it matches, from `pos` on. Returns the
/// position and the match count reached.
fn repeat_at<S: Space>(
    g: &Grammar,
    space: &S,
    input: &str,
    child: &Expr,
    pos: usize,
    count: usize,
    anchor: usize,
    depth: usize,
    trace: &mut Vec<TraceEvent>,
    stack: &mut TagStack,
    Ghost(start): Ghost<Progress>,
    Ghost(stack0): Ghost<Seq<Tag>>,
    Ghost(trace0): Ghost<Seq<TraceEvent>>,
) -> (r: (usize, usize))
    requires
        g.wf(),
        on_boundary(input.spec_bytes(), pos),
        start.pos == pos,
        start.count == count,
        old(stack)@ == stack0 + start.tags,
        old(trace)@ == trace0 + start.trace,
    ensures
        ({
            let next = repeat_from(*g, *space, input.spec_bytes(), *child, start, anchor, depth);
            &&& r == (next.pos, next.count)
            &&& final(stack)@ == stack0 + next.tags
            &&& final(trace)@ == trace0 + next.trace
            &&& pos <= next.pos
            &&& on_boundary(input.spec_bytes(), next.pos)
        }),
    decreases
            input.spec_bytes().len() - pos,
            g.rules.len() - nesting(anchor, depth, pos),
            1int,
            *child,
            1int,
{
    let ghost bytes = input.spec_bytes();
    let ghost goal = repeat_from(*g, *space, bytes, *child, start, anchor, depth);
    let ghost mut tags = start.tags;
    let ghost mut events = start.trace;
    let mut at: usize = pos;
    let mut count: usize = count;
    loop
        invariant_except_break
            repeat_from(
                *g,
                *space,
                bytes,
                *child,
                Progress { pos: at, count, tags, trace: events },
                anchor,
                depth,
            ) == goal,
        invariant
            g.wf(),
            bytes == input.spec_bytes(),
            pos <= at,
            on_boundary(bytes, at),
            stack@ == stack0 + tags,
            trace@ == trace0 + events,
        ensures
            goal == (Progress { pos: at, count, tags, trace: events }),
        decreases bytes.len() - at,
    {
        let ghost o = expr_outcome(*g, *space, bytes, *child, at, anchor, depth);
        let before: Mark = stack.checkpoint();
        match expr_at(g, space, input, child, at, anchor, depth, trace, stack) {
            Ok(end) => {
                proof {
                    assert(stack@ =~= stack0 + (tags + o.tags));
                    assert(trace@ =~= trace0 + (events + o.trace));
                    tags = tags + o.tags;
                    events = events + o.trace;
                }
                let moved: bool = end > at;
                at = end;
                count = bump_count(count);
                if !moved {
                    break ;
                }
            },
            Err(_) => {
                proof {
                    assert(trace@ =~= trace0 + (events + o.trace));
                    assert(stack@.subrange(0, before as int) =~= stack@);
                    events = events + o.trace;
                }
                stack.truncate(before);
                break ;
            },
        }
    }
    (at, count)
}

/// Skips whitespace at `pos`, as `space` defines it. Skipping always
/// succeeds; it may skip nothing.
pub fn match_space<S: Space>(space: &S, input: &str, pos: usize) -> (r: Result<usize, NoMatch>)
    requires
        on_boundary(input.spec_bytes(), pos),
    ensures
        r matches Ok(end) && end == space.skip(input.spec_bytes(), pos as int),
        space_end(*space, input.spec_bytes(), pos) == r.ok(),
        r matches Ok(end) ==> pos <= end && on_boundary(input.spec_bytes(), end),
{
    let end = space.space(input, pos);
    proof {
        encode_utf8_valid_utf8(input@);
        space.skip_lands(input.spec_bytes(), pos as int);
    }
    Ok(end)
}

/// Matches the rule that a symbol refers to, at `pos`, and hands on what
/// the rule returns.
pub fn match_symbol<S: Space>(
    g: &Grammar,
    space: &S,
    rule: usize,
    input: &str,
    pos: usize,
    trace: &mut Vec<TraceEvent>,
    stack: &mut TagStack,
) -> (r: Result<usize, NoMatch>)
    requires
        g.wf(),
        on_boundary(input.spec_bytes(), pos),
    ensures
        follows(
            rule_outcome(*g, *space, input.spec_bytes(), rule, pos, None, pos, 0),
            r,
            old(stack)@,
            final(stack)@,
            old(trace)@,
            final(trace)@,
        ),
        r matches Ok(end) ==> pos <= end && on_boundary(input.spec_bytes(), end),
{
    rule_at(g, space, input, rule, pos, None, pos, 0, trace, stack)
}

/// Matches `expr` at `pos`.
pub fn match_expr<S: Space>(
    g: &Grammar,
    space: &S,
    expr: &Expr,
    input: &str,
    pos: usize,
    trace: &mut Vec<TraceEvent>,
    stack: &mut TagStack,
) -> (r: Result<usize, NoMatch>)
    requires
        g.wf(),
        on_boundary(input.spec_bytes(), pos),
    ensures
        follows(
            expr_outcome(*g, *space, input.spec_bytes(), *expr, pos, pos, 0),
            r,
            old(stack)@,
            final(stack)@,
            old(trace)@,
            final(trace)@,
        ),
        r matches Ok(end) ==> pos <= end && on_boundary(input.spec_bytes(), end),
{
    expr_at(g, space, input, expr, pos, pos, 0, trace, stack)
}

/// Matches `children` in order, from `pos` on, and pushes a group tag that
/// spans the match and counts the optional and repeated children that
/// matched, one for every match of a repeated child.
///
/// A child with [`Flag::Null`] that fails makes the sequence fail: every
/// tag pushed since the sequence began is dropped again.
pub fn match_sequence<S: Space>(
    g: &Grammar,
    space: &S,
    children: &Vec<(Expr, Flag)>,
    input: &str,
    pos: usize,
    trace: &mut Vec<TraceEvent>,
    stack: &mut TagStack,
) -> (r: Result<usize, NoMatch>)
    requires
        g.wf(),
        on_boundary(input.spec_bytes(), pos),
    ensures
        follows(
            seq_outcome(*g, *space, input.spec_bytes(), children@, pos, pos, 0),
            r,
            old(stack)@,
            final(stack)@,
            old(trace)@,
            final(trace)@,
        ),
        r matches Ok(end) ==> pos <= end && on_boundary(input.spec_bytes(), end),
        r is Err ==> final(stack)@ == old(stack)@,
{
    sequence_at(g, space, input, children, pos, pos, 0, trace, stack)
}

/// Matches rule `rule` at `pos`. The match is accepted only if it ends
/// beyond `last`, the end that an earlier candidate at the same start
/// reached; `None` accepts every match. A match that is not accepted is
/// rolled back like a failure. An accepted match pushes a rule tag with the
/// rule's identity and the span of the match.
pub fn match_rule<S: Space>(
    g: &Grammar,
    space: &S,
    rule: usize,
    input: &str,
    pos: usize,
    last: Option<usize>,
    trace: &mut Vec<TraceEvent>,
    stack: &mut TagStack,
) -> (r: Result<usize, NoMatch>)
    requires
        g.wf(),
        on_boundary(input.spec_bytes(), pos),
    ensures
        follows(
            rule_outcome(*g, *space, input.spec_bytes(), rule, pos, last, pos, 0),
            r,
            old(stack)@,
            final(stack)@,
            old(trace)@,
            final(trace)@,
        ),
        r matches Ok(end) ==> pos <= end && on_boundary(input.spec_bytes(), end) && accepted(
            last,
            end,
        ),
        r is Err ==> final(stack)@ == old(stack)@,
{
    rule_at(g, space, input, rule, pos, last, pos, 0, trace, stack)
}

/// Matches rule `rule` against the input from `start` on, with a fresh tag
/// stack, and reports what traced rules have to report in `trace`.
pub fn parse_traced<S: Space>(
    g: &Grammar,
    space: &S,
    rule: usize,
    input: &str,
    start: usize,
    trace: &mut Vec<TraceEvent>,
) -> (r: Result<(usize, TagStack), NoMatch>)
    requires
        g.wf(),
        on_boundary(input.spec_bytes(), start),
    ensures
        ({
            let o = rule_outcome(*g, *space, input.spec_bytes(), rule, start, None, start, 0);
            &&& final(trace)@ == old(trace)@ + o.trace
            &&& match r {
                Ok((end, stack)) => {
                    &&& o.end == Some(end)
                    &&& stack@ == o.tags
                    &&& start <= end
                    &&& on_boundary(input.spec_bytes(), end)
                    &&& stack@.len() > 0
                    &&& stack@.last() == Tag {
                        kind: TagKind::Rule(g.spec_identity(rule)),
                        begin: start,
                        end,
                    }
                },
                Err(_) => o.end is None,
            }
        }),
{
    let mut stack = TagStack::new();
    match rule_at(g, space, input, rule, start, None, start, 0, trace, &mut stack) {
        Ok(end) => Ok((end, stack)),
        Err(e) => Err(e),
    }
}

/// Matches rule `rule` against the input from `start` on. Returns the end
/// of the matched prefix and the tags of the match, the last of which is
/// the rule's own tag; or [`NoMatch`], and then nothing of the attempt is
/// left.
pub fn parse<S: Space>(g: &Grammar, space: &S, rule: usize, input: &str, start: usize) -> (r:
    Result<(usize, TagStack), NoMatch>)
    requires
        g.wf(),
        on_boundary(input.spec_bytes(), start),
    ensures
        ({
            let o = rule_outcome(*g, *space, input.spec_bytes(), rule, start, None, start, 0);
            match r {
                Ok((end, stack)) => {
                    &&& o.end == Some(end)
                    &&& stack@ == o.tags
                    &&& start <= end
                    &&& on_boundary(input.spec_bytes(), end)
                    &&& stack@.len() > 0
                    &&& stack@.last() == Tag {
                        kind: TagKind::Rule(g.spec_identity(rule)),
                        begin: start,
                        end,
                    }
                },
                Err(_) => o.end is None,
            }
        }),
{
    let mut trace: Vec<TraceEvent> = Vec::new();
    parse_traced(g, space, rule, input, start, &mut trace)
}

} // verus!

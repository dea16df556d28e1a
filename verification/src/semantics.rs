//! What matching means: the outcome of every matching operation as a
//! function of the grammar, the whitespace policy, the input and the start
//! position.
//!
//! The input is the sequence of its bytes, and positions are byte offsets.
//!
//! Matching has to end on every grammar, also on one whose rules call
//! themselves before they consume anything. So every operation knows how
//! many attempts at rules are under way that began where it stands: `depth`
//! of them began at `anchor`, and none began further on. A rule is not
//! attempted where as many are under way as the grammar has rules, for one
//! of them would then be an attempt at the same rule at the same position.
//! A parse that ends without this limit never reaches it.
//!
//! The definitions test that a match ends between the position at which it
//! began and the end of the input. The test is what makes them well
//! founded. What the whitespace policy and the regular expressions give
//! passes it, and so does every match that is made of such parts.

use crate::grammar::{Expr, Flag, Grammar};
use crate::pattern::regex_find;
use crate::space::Space;
use crate::tag::{Tag, TagKind};
use crate::trace::TraceEvent;
use regex::Regex;
use vstd::prelude::*;
use vstd::utf8::*;

verus! {

/// The outcome of one matching attempt.
pub struct Outcome {
    /// The position after the match, or `None` where nothing matched.
    pub end: Option<usize>,
    /// The tags that the attempt leaves on the stack: none if it failed.
    pub tags: Seq<Tag>,
    /// The trace events of the attempt. A failed attempt keeps them.
    pub trace: Seq<TraceEvent>,
}

/// How far the matching of a sequence has come.
pub struct Progress {
    /// The position reached.
    pub pos: usize,
    /// How many optional and repeated children have matched.
    pub count: usize,
    /// The tags pushed since the sequence began.
    pub tags: Seq<Tag>,
    /// The trace events since the sequence began.
    pub trace: Seq<TraceEvent>,
}

/// A match without tags or trace events that ends at `end`.
pub open spec fn silent_match(end: usize) -> Outcome {
    Outcome { end: Some(end), tags: Seq::empty(), trace: Seq::empty() }
}

/// A failure that produced the trace events `trace`.
pub open spec fn no_match(trace: Seq<TraceEvent>) -> Outcome {
    Outcome { end: None, tags: Seq::empty(), trace }
}

/// `end` is a possible end of a match that began at `pos`.
pub open spec fn lands(input: Seq<u8>, pos: usize, end: usize) -> bool {
    pos <= end <= input.len()
}

/// The match count after one more optional or repeated child has matched.
/// The count stops at `usize::MAX`, which no input that a machine can hold
/// reaches.
pub open spec fn bump(count: usize) -> usize {
    if count < usize::MAX {
        (count + 1) as usize
    } else {
        count
    }
}

/// Where skipping whitespace from `pos` ends.
pub open spec fn space_end<S: Space>(s: S, input: Seq<u8>, pos: usize) -> Option<usize> {
    let end = s.skip(input, pos as int);
    if pos <= end <= input.len() {
        Some(end as usize)
    } else {
        None
    }
}

/// Where a match of `literal` at `pos` ends: the input continues with
/// exactly the bytes of `literal`.
pub open spec fn token_end(input: Seq<u8>, pos: usize, literal: Seq<u8>) -> Option<usize> {
    if pos + literal.len() <= input.len() && input.subrange(
        pos as int,
        pos + literal.len(),
    ) == literal {
        Some((pos + literal.len()) as usize)
    } else {
        None
    }
}

/// Where a leaf at `pos` ends, given what its regular expression found in
/// the rest of an input of `total` bytes: the leaf matches where the
/// expression matched from the very start of the rest.
pub open spec fn found_end(found: Option<(usize, usize)>, total: nat, pos: usize) -> Option<
    usize,
> {
    match found {
        Some((start, end)) => if start == 0 && pos + end <= total {
            Some((pos + end) as usize)
        } else {
            None
        },
        None => None,
    }
}

/// Where a match of `regex` at `pos` ends: the expression is run on the
/// rest of the input and has to match a prefix of it.
pub open spec fn leaf_end(input: Seq<u8>, pos: usize, regex: Regex) -> Option<usize> {
    if pos <= input.len() {
        found_end(
            regex_find(regex, decode_utf8(input.subrange(pos as int, input.len() as int))),
            input.len(),
            pos,
        )
    } else {
        None
    }
}

/// The longest-match gate: a match that ends at `end` is accepted unless an
/// earlier candidate already reached `last` or further.
pub open spec fn accepted(last: Option<usize>, end: usize) -> bool {
    match last {
        Some(l) => end > l,
        None => true,
    }
}

/// How many attempts at rules are under way that began at `pos` and have
/// consumed nothing yet. `depth` counts those that began at `anchor`.
pub open spec fn nesting(anchor: usize, depth: usize, pos: usize) -> usize {
    if pos == anchor {
        depth
    } else {
        0
    }
}

/// What a rule reports when it is entered.
pub open spec fn enter_events(g: Grammar, rule: usize, pos: usize) -> Seq<TraceEvent> {
    if g.rules[rule as int].trace {
        seq![TraceEvent::Enter { rule, pos }]
    } else {
        Seq::empty()
    }
}

/// What a rule reports when it is left.
pub open spec fn exit_events(g: Grammar, rule: usize, pos: usize, matched: bool) -> Seq<
    TraceEvent,
> {
    if g.rules[rule as int].trace {
        seq![TraceEvent::Exit { rule, pos, matched }]
    } else {
        Seq::empty()
    }
}

/// The outcome of matching `e` at `pos`.
pub open spec fn expr_outcome<S: Space>(
    g: Grammar,
    s: S,
    input: Seq<u8>,
    e: Expr,
    pos: usize,
    anchor: usize,
    depth: usize,
) -> Outcome
    decreases input.len() - pos, g.rules.len() - nesting(anchor, depth, pos), 1int, e, 0int,
{
    match e {
        Expr::Space => match space_end(s, input, pos) {
            Some(end) => silent_match(end),
            None => no_match(Seq::empty()),
        },
        Expr::Token { literal } => match token_end(input, pos, encode_utf8(literal@)) {
            Some(end) => silent_match(end),
            None => no_match(Seq::empty()),
        },
        Expr::Symbol { rule } => rule_outcome(g, s, input, rule, pos, None, anchor, depth),
        Expr::RegExp { regex } => match leaf_end(input, pos, regex) {
            Some(end) => Outcome {
                end: Some(end),
                tags: seq![Tag { kind: TagKind::Leaf, begin: pos, end }],
                trace: Seq::empty(),
            },
            None => no_match(Seq::empty()),
        },
        Expr::Sequence { children } => seq_outcome(g, s, input, children@, pos, anchor, depth),
    }
}

/// The outcome of matching rule `rule` at `pos`, where an earlier candidate
/// at the same start reached `last`.
///
/// A rule that is attempted again at a position at which as many attempts
/// at rules as the grammar has rules are already under way, none of which
/// has consumed anything, does not match: such an attempt could only repeat
/// one of them for ever.
pub open spec fn rule_outcome<S: Space>(
    g: Grammar,
    s: S,
    input: Seq<u8>,
    rule: usize,
    pos: usize,
    last: Option<usize>,
    anchor: usize,
    depth: usize,
) -> Outcome
    decreases input.len() - pos, g.rules.len() - nesting(anchor, depth, pos), 0int, Expr::Space,
        0int,
{
    if rule >= g.rules.len() || pos > input.len() {
        no_match(Seq::empty())
    } else if nesting(anchor, depth, pos) >= g.rules.len() {
        no_match(enter_events(g, rule, pos) + exit_events(g, rule, pos, false))
    } else {
        let body = seq_outcome(
            g,
            s,
            input,
            g.rules[rule as int].body@,
            pos,
            pos,
            (nesting(anchor, depth, pos) + 1) as usize,
        );
        match body.end {
            Some(end) => if accepted(last, end) {
                Outcome {
                    end: Some(end),
                    tags: body.tags.push(
                        Tag { kind: TagKind::Rule(g.spec_identity(rule)), begin: pos, end },
                    ),
                    trace: enter_events(g, rule, pos) + body.trace + exit_events(
                        g,
                        rule,
                        end,
                        true,
                    ),
                }
            } else {
                no_match(
                    enter_events(g, rule, pos) + body.trace + exit_events(g, rule, pos, false),
                )
            },
            None => no_match(
                enter_events(g, rule, pos) + body.trace + exit_events(g, rule, pos, false),
            ),
        }
    }
}

/// The outcome of matching `children` as a sequence that begins at `pos`.
pub open spec fn seq_outcome<S: Space>(
    g: Grammar,
    s: S,
    input: Seq<u8>,
    children: Seq<(Expr, Flag)>,
    pos: usize,
    anchor: usize,
    depth: usize,
) -> Outcome
    decreases input.len() - pos, g.rules.len() - nesting(anchor, depth, pos), 1int, children,
        children.len() + 1,
{
    seq_from(
        g,
        s,
        input,
        children,
        0,
        pos,
        Progress { pos, count: 0, tags: Seq::empty(), trace: Seq::empty() },
        anchor,
        depth,
    )
}

/// The outcome of a sequence that began at `begin` and has dealt with its
/// first `i` children, with the progress `at`.
///
/// A child that has to match once and does not makes the sequence fail, and
/// nothing is left of what the children before it pushed. An optional child
/// is attempted once and a repeated child as often as it matches. After the
/// last child the sequence pushes its group tag.
pub open spec fn seq_from<S: Space>(
    g: Grammar,
    s: S,
    input: Seq<u8>,
    children: Seq<(Expr, Flag)>,
    i: int,
    begin: usize,
    at: Progress,
    anchor: usize,
    depth: usize,
) -> Outcome
    decreases input.len() - at.pos, g.rules.len() - nesting(anchor, depth, at.pos), 1int,
        children, children.len() - i,
{
    if i < 0 || i >= children.len() {
        Outcome {
            end: Some(at.pos),
            tags: at.tags.push(
                Tag { kind: TagKind::Group(at.count), begin, end: at.pos },
            ),
            trace: at.trace,
        }
    } else {
        let child = children[i].0;
        match children[i].1 {
            Flag::Null => {
                let o = expr_outcome(g, s, input, child, at.pos, anchor, depth);
                if moves(input, at, o) {
                    let next = Progress { count: at.count, ..step(input, at, o) };
                    seq_from(g, s, input, children, i + 1, begin, next, anchor, depth)
                } else {
                    no_match(at.trace + o.trace)
                }
            },
            Flag::OrNot => {
                let o = expr_outcome(g, s, input, child, at.pos, anchor, depth);
                seq_from(g, s, input, children, i + 1, begin, step(input, at, o), anchor, depth)
            },
            Flag::Repeat => {
                let next = repeat_from(g, s, input, child, at, anchor, depth);
                if lands(input, at.pos, next.pos) {
                    seq_from(g, s, input, children, i + 1, begin, next, anchor, depth)
                } else {
                    no_match(next.trace)
                }
            },
        }
    }
}

/// The progress after one attempt, with the outcome `o`, at an optional or
/// repeated child: a match counts and moves on; a failure changes nothing
/// but the trace.
pub open spec fn step(input: Seq<u8>, at: Progress, o: Outcome) -> Progress {
    if moves(input, at, o) {
        Progress {
            pos: o.end->0,
            count: bump(at.count),
            tags: at.tags + o.tags,
            trace: at.trace + o.trace,
        }
    } else {
        Progress { trace: at.trace + o.trace, ..at }
    }
}

/// The attempt with the outcome `o` matched.
pub open spec fn moves(input: Seq<u8>, at: Progress, o: Outcome) -> bool {
    o.end matches Some(end) && lands(input, at.pos, end)
}

/// The progress after a repeated child: attempts follow one another until
/// one fails, or until one matches without consuming anything, which still
/// counts but ends the repetition.
pub open spec fn repeat_from<S: Space>(
    g: Grammar,
    s: S,
    input: Seq<u8>,
    child: Expr,
    at: Progress,
    anchor: usize,
    depth: usize,
) -> Progress
    decreases input.len() - at.pos, g.rules.len() - nesting(anchor, depth, at.pos), 1int, child,
        1int,
{
    let o = expr_outcome(g, s, input, child, at.pos, anchor, depth);
    let next = step(input, at, o);
    if moves(input, at, o) && next.pos > at.pos {
        repeat_from(g, s, input, child, next, anchor, depth)
    } else {
        next
    }
}

} // verus!

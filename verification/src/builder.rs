//! Grammars as they are written down, and how they are made ready to run.
//!
//! A [`Builder`] holds the rules of a grammar with their patterns as text.
//! Building compiles every pattern once, anchored to the position at which
//! it will be tried, and reserves the identities of the rules.

use crate::grammar::{Expr, Flag, Grammar, RuleImpl};
use crate::num_build::{untouched, NumBuild};
use crate::pattern::{compile, regex_compiles, regex_source};
use crate::registry::{Num, Registry};
use crate::rules_impl_build::RulesImplBuild;
use regex::Regex;
use vstd::prelude::*;
use vstd::string::*;

verus! {

/// An expression of a grammar as it is written down.
#[derive(Debug)]
pub enum Fmt {
    /// Skip whitespace.
    Space,
    /// Match `token` exactly.
    Token { token: String },
    /// Match the rule with index `rule`.
    Symbol { rule: usize },
    /// Match a prefix with the regular expression `regex`.
    RegExp { regex: String },
    /// Match the children in order.
    SeqExp { children: Vec<(Fmt, Flag)> },
}

/// A rule as it is written down: its name, its body, which is matched as a
/// sequence, and whether attempts at it are traced.
#[derive(Debug)]
pub struct Rule {
    pub name: String,
    pub body: Vec<(Fmt, Flag)>,
    pub trace: bool,
}

/// A grammar as it is written down: its name and its rules.
#[derive(Debug)]
pub struct Builder {
    pub ident: String,
    pub rules: Vec<Rule>,
}

/// Why a grammar could not be built.
#[derive(Clone, Copy, Debug, PartialEq, Eq, Structural)]
pub enum BuildError {
    /// The registry has fewer identities left than the grammar has rules.
    Identities,
    /// The grammar's name is registered with another number of rules.
    Redefined,
    /// A regular expression did not compile.
    Pattern,
}

/// The pattern that is compiled for the regular expression `regex`: the
/// expression in a group of its own behind `^`, so that it only matches at
/// the start of what it is run on.
pub open spec fn anchored(regex: Seq<char>) -> Seq<char> {
    seq!['^', '('] + regex + seq![')']
}

/// Every regular expression in `fmt` compiles, anchored.
pub open spec fn compiles(fmt: Fmt) -> bool
    decreases fmt,
{
    match fmt {
        Fmt::RegExp { regex } => regex_compiles(anchored(regex@)),
        Fmt::SeqExp { children } => all_compile(children@),
        _ => true,
    }
}

/// Every regular expression in `children` compiles, anchored.
pub open spec fn all_compile(children: Seq<(Fmt, Flag)>) -> bool
    decreases children,
{
    forall|i: int| 0 <= i < children.len() ==> compiles(#[trigger] children[i].0)
}

/// `expr` is `fmt` made ready to run: the same expression, with every
/// regular expression compiled from its anchored pattern.
pub open spec fn realizes(expr: Expr, fmt: Fmt) -> bool
    decreases fmt,
{
    match fmt {
        Fmt::Space => expr is Space,
        Fmt::Token { token } => expr matches Expr::Token { literal } && literal@ == token@,
        Fmt::Symbol { rule } => expr matches Expr::Symbol { rule: r } && r == rule,
        Fmt::RegExp { regex } => expr matches Expr::RegExp { regex: compiled } && regex_source(
            compiled,
        ) == anchored(regex@),
        Fmt::SeqExp { children } => expr matches Expr::Sequence { children: built }
            && realizes_all(built@, children@),
    }
}

/// `built` is `children` made ready to run, child by child, with the same
/// flags.
pub open spec fn realizes_all(built: Seq<(Expr, Flag)>, children: Seq<(Fmt, Flag)>) -> bool
    decreases children,
{
    &&& built.len() == children.len()
    &&& forall|i: int|
        0 <= i < children.len() ==> (#[trigger] built[i]).1 == children[i].1 && realizes(
            built[i].0,
            children[i].0,
        )
}

/// `built` is `rule` made ready to run.
pub open spec fn realizes_rule(built: RuleImpl, rule: Rule) -> bool {
    &&& built.name@ == rule.name@
    &&& built.trace == rule.trace
    &&& realizes_all(built.body@, rule.body@)
}

/// The anchored pattern for `regex`.
pub fn anchor(regex: &str) -> (pattern: String)
    ensures
        pattern@ == anchored(regex@),
{
    let pattern = String::from_str("^(").concat(regex).concat(")");
    proof {
        reveal_strlit("^(");
        reveal_strlit(")");
        assert(pattern@ =~= anchored(regex@));
    }
    pattern
}

/// The leaf for a regular expression, from what compiling it gave.
pub fn leaf_from(compiled: Result<Regex, regex::Error>) -> (r: Result<Expr, BuildError>)
    ensures
        match compiled {
            Ok(regex) => r == Ok::<Expr, BuildError>(Expr::RegExp { regex }),
            Err(_) => r == Err::<Expr, BuildError>(BuildError::Pattern),
        },
{
    match compiled {
        Ok(regex) => Ok(Expr::RegExp { regex }),
        Err(_) => Err(BuildError::Pattern),
    }
}

/// Makes `fmt` ready to run. Succeeds where every regular expression in it
/// compiles, and fails with [`BuildError::Pattern`] where one does not.
pub fn body_build(fmt: &Fmt) -> (r: Result<Expr, BuildError>)
    ensures
        r is Ok <==> compiles(*fmt),
        r matches Ok(expr) ==> realizes(expr, *fmt),
        r matches Err(e) ==> e == BuildError::Pattern,
    decreases *fmt,
{
    match fmt {
        Fmt::Space => Ok(Expr::Space),
        Fmt::Token { token } => Ok(Expr::Token { literal: token.clone() }),
        Fmt::Symbol { rule } => Ok(Expr::Symbol { rule: *rule }),
        Fmt::RegExp { regex } => {
            let pattern = anchor(regex.as_str());
            leaf_from(compile(pattern.as_str()))
        },
        Fmt::SeqExp { children } => match children_build(children) {
            Ok(built) => Ok(Expr::Sequence { children: built }),
            Err(e) => Err(e),
        },
    }
}

/// Makes `children` ready to run, in order. Succeeds where every regular
/// expression in them compiles, and fails with [`BuildError::Pattern`]
/// where one does not.
pub fn children_build(children: &Vec<(Fmt, Flag)>) -> (r: Result<Vec<(Expr, Flag)>, BuildError>)
    ensures
        r is Ok <==> all_compile(children@),
        r matches Ok(built) ==> realizes_all(built@, children@),
        r matches Err(e) ==> e == BuildError::Pattern,
    decreases *children,
{
    let mut built: Vec<(Expr, Flag)> = Vec::new();
    let mut i: usize = 0;
    while i < children.len()
        invariant
            i <= children.len(),
            built.len() == i,
            forall|k: int| 0 <= k < i ==> compiles(#[trigger] children@[k].0),
            forall|k: int|
                0 <= k < i ==> (#[trigger] built@[k]).1 == children@[k].1 && realizes(
                    built@[k].0,
                    children@[k].0,
                ),
        decreases children.len() - i,
    {
        match body_build(&children[i].0) {
            Ok(expr) => {
                built.push((expr, children[i].1));
            },
            Err(e) => {
                return Err(e);
            },
        }
        i += 1;
    }
    Ok(built)
}

impl Builder {
    /// Every regular expression in the rules compiles, anchored.
    pub open spec fn compiles(&self) -> bool {
        forall|i: int| 0 <= i < self.rules.len() ==> all_compile(#[trigger] self.rules[i].body@)
    }

    /// `rules` are the rules of this grammar made ready to run.
    pub open spec fn realized_by(&self, rules: Seq<RuleImpl>) -> bool {
        &&& rules.len() == self.rules.len()
        &&& forall|i: int|
            0 <= i < self.rules.len() ==> realizes_rule(#[trigger] rules[i], self.rules[i])
    }

    /// Builds the grammar: compiles the rules, then gives the grammar its
    /// identities in `registry`.
    ///
    /// Fails with [`BuildError::Pattern`] exactly where a regular expression
    /// does not compile; otherwise the numbering decides, as
    /// [`NumBuild::num_build`] says. Where building fails the registry is
    /// left as it was.
    pub fn build(&self, registry: &mut Registry) -> (r: Result<Grammar, BuildError>)
        requires
            old(registry).wf(),
        ensures
            final(registry).wf(),
            r matches Err(BuildError::Pattern) <==> !self.compiles(),
            match r {
                Ok(g) => {
                    &&& g.wf()
                    &&& self.realized_by(g.rules@)
                    &&& g.num.count == self.rules.len()
                    &&& final(registry).registered().contains((self.ident@, g.num))
                    &&& if old(registry).knows(self.ident@) {
                        untouched(*old(registry), *final(registry))
                    } else {
                        &&& g.num.base == old(registry).next()
                        &&& final(registry).next() == old(registry).next() + self.rules.len()
                        &&& final(registry).registered() == old(registry).registered().push(
                            (self.ident@, g.num),
                        )
                    }
                },
                Err(BuildError::Pattern) => untouched(*old(registry), *final(registry)),
                Err(BuildError::Redefined) => {
                    &&& exists|num: Num| #[trigger]
                        old(registry).registered().contains((self.ident@, num)) && num.count
                            != self.rules.len()
                    &&& untouched(*old(registry), *final(registry))
                },
                Err(BuildError::Identities) => {
                    &&& !old(registry).knows(self.ident@)
                    &&& old(registry).next() + self.rules.len() > usize::MAX
                    &&& untouched(*old(registry), *final(registry))
                },
            },
    {
        match self.rules_impl_build() {
            Ok(rules) => match self.num_build(registry) {
                Ok(num) => Ok(Grammar { rules, num }),
                Err(e) => Err(e),
            },
            Err(e) => Err(e),
        }
    }
}

} // verus!

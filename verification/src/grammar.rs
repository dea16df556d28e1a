//! The grammar model: rules as sequences of quantified expressions.

use crate::pattern::{regex_source, source};
use crate::registry::Num;
use regex::Regex;
use vstd::prelude::*;

verus! {

/// How often a child of a sequence may match.
#[derive(Clone, Copy, Debug, PartialEq, Eq, Structural)]
pub enum Flag {
    /// Exactly once: the sequence fails where the child fails.
    Null,
    /// As often as it matches, possibly never.
    Repeat,
    /// Once or not at all.
    OrNot,
}

/// An expression of a grammar that is ready to run.
#[derive(Debug)]
pub enum Expr {
    /// Skip whitespace, as the grammar's whitespace policy defines it.
    Space,
    /// Match `literal` exactly. No tag is pushed.
    Token { literal: String },
    /// Match the rule with index `rule`.
    Symbol { rule: usize },
    /// Match a prefix with a compiled regular expression and push a leaf tag.
    RegExp { regex: Regex },
    /// Match the children in order and push a group tag.
    Sequence { children: Vec<(Expr, Flag)> },
}

/// A rule: a name, a body that is matched as a sequence, and whether
/// attempts at the rule are traced.
#[derive(Debug)]
pub struct RuleImpl {
    pub name: String,
    pub body: Vec<(Expr, Flag)>,
    pub trace: bool,
}

/// A grammar: its rules and the identities reserved for them.
#[derive(Debug)]
pub struct Grammar {
    pub rules: Vec<RuleImpl>,
    pub num: Num,
}

impl Expr {
    /// The pattern that a regular-expression leaf was compiled from; `None`
    /// for every other expression.
    pub fn pattern(&self) -> (pattern: Option<&str>)
        ensures
            match *self {
                Expr::RegExp { regex } => pattern matches Some(text) && text@ == regex_source(
                    regex,
                ),
                _ => pattern is None,
            },
    {
        match self {
            Expr::RegExp { regex } => Some(source(regex)),
            _ => None,
        }
    }
}

impl Grammar {
    /// Every rule has an identity, and the identities fit in `usize`.
    pub open spec fn wf(&self) -> bool {
        &&& self.num.wf()
        &&& self.rules.len() <= self.num.count
    }

    /// The identity of rule `rule`, as a specification.
    pub open spec fn spec_identity(&self, rule: usize) -> usize {
        (self.num.base + rule) as usize
    }

    /// The identity of rule `rule`. It is the same on every call.
    pub fn identity(&self, rule: usize) -> (identity: usize)
        requires
            self.wf(),
            rule < self.rules.len(),
        ensures
            identity == self.spec_identity(rule),
            identity == self.num.base + rule,
    {
        self.num.num(rule)
    }
}

} // verus!

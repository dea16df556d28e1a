//! Making the rules of a grammar ready to run.

use crate::builder::{
    all_compile, body_build, children_build, compiles, realizes, realizes_rule, BuildError,
    Builder, Fmt,
};
use crate::grammar::{Expr, RuleImpl};
use vstd::prelude::*;

verus! {

/// Builds what runs a grammar's rules.
pub trait RulesImplBuild {
    /// Builds every rule of the grammar.
    fn rules_impl_build(&self) -> Result<Vec<RuleImpl>, BuildError>;

    /// Builds one expression.
    fn rules_body_build(&self, fmt: &Fmt) -> Result<Expr, BuildError>;
}

impl RulesImplBuild for Builder {
    /// Builds one expression: the same expression with every regular
    /// expression compiled. Succeeds where all of them compile, and fails
    /// with [`BuildError::Pattern`] where one does not.
    fn rules_body_build(&self, fmt: &Fmt) -> (r: Result<Expr, BuildError>)
        ensures
            r is Ok <==> compiles(*fmt),
            r matches Ok(expr) ==> realizes(expr, *fmt),
            r matches Err(e) ==> e == BuildError::Pattern,
    {
        body_build(fmt)
    }

    /// Builds every rule, in order, with its name and its trace flag.
    /// Succeeds where every regular expression in the rules compiles, and
    /// fails with [`BuildError::Pattern`] where one does not.
    fn rules_impl_build(&self) -> (r: Result<Vec<RuleImpl>, BuildError>)
        ensures
            r is Ok <==> self.compiles(),
            r matches Ok(rules) ==> self.realized_by(rules@),
            r matches Err(e) ==> e == BuildError::Pattern,
    {
        let mut rules: Vec<RuleImpl> = Vec::new();
        let mut i: usize = 0;
        while i < self.rules.len()
            invariant
                i <= self.rules.len(),
                rules.len() == i,
                forall|k: int| 0 <= k < i ==> all_compile(#[trigger] self.rules@[k].body@),
                forall|k: int| 0 <= k < i ==> realizes_rule(#[trigger] rules@[k], self.rules@[k]),
            decreases self.rules.len() - i,
        {
            let rule = &self.rules[i];
            match children_build(&rule.body) {
                Ok(body) => {
                    rules.push(RuleImpl { name: rule.name.clone(), body, trace: rule.trace });
                },
                Err(e) => {
                    return Err(e);
                },
            }
            i += 1;
        }
        Ok(rules)
    }
}

} // verus!

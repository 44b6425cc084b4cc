//! Rules on contracting pronouns, and the two of them run as one.

use vstd::prelude::*;
use crate::document::Document;
use crate::lint::{lint_views, Lint, LintView};
use crate::linting::Linter;
use crate::token::Token;
use self::avoid_contraction::AvoidContraction;
use self::should_contract::ShouldContract;

pub mod avoid_contraction;
pub mod should_contract;

verus! {

/// The rule for a missing contraction and the rule for a misplaced one,
/// run one after the other.
#[derive(Debug)]
pub struct PronounContraction {
    pub should_contract: ShouldContract,
    pub avoid_contraction: AvoidContraction,
}

impl PronounContraction {
    /// Both rules are the standard ones.
    pub open spec fn is_standard(&self) -> bool {
        self.should_contract.is_standard() && self.avoid_contraction.is_standard()
    }
}

impl Default for PronounContraction {
    fn default() -> (out: Self)
        ensures
            out.is_standard(),
    {
        PronounContraction {
            should_contract: ShouldContract::default(),
            avoid_contraction: AvoidContraction::default(),
        }
    }
}

impl Linter for PronounContraction {
    open spec fn findings(&self, tokens: Seq<Token>, source: Seq<char>) -> Seq<LintView> {
        self.should_contract.findings(tokens, source) + self.avoid_contraction.findings(
            tokens,
            source,
        )
    }

    fn lint(&mut self, document: &Document) -> (lints: Vec<Lint>)
        ensures
            lint_views(lints@) == old(self).findings(document@.tokens, document@.source),
    {
        let mut lints = self.should_contract.lint(document);
        let mut more = self.avoid_contraction.lint(document);
        let ghost first = lints@;
        let ghost second = more@;
        lints.append(&mut more);
        assert(lint_views(first + second) =~= lint_views(first) + lint_views(second));
        lints
    }

    open spec fn description_text(&self) -> Seq<char> {
        "Choosing when to contract pronouns is a challenging art. This rule looks for faults."@
    }

    fn description(&self) -> (text: &'static str)
        ensures
            text@ == "Choosing when to contract pronouns is a challenging art. This rule looks for faults."@,
    {
        "Choosing when to contract pronouns is a challenging art. This rule looks for faults."
    }
}

} // verus!

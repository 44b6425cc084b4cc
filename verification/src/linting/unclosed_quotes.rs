//! The rule against quotation marks without a partner.

use vstd::prelude::*;
use crate::document::Document;
use crate::lint::{
    lint_views, lint_views_push, suggestion_views, Lint, LintKind, LintView, SuggestionView,
};
use crate::linting::Linter;
use crate::token::{Punctuation, Quote, Token, TokenKind};

verus! {

/// Flags every quotation mark that pairing left without a twin.
#[derive(Debug, Clone, Copy)]
pub struct UnclosedQuotes;

/// Whether the token is a quotation mark without a twin.
pub open spec fn is_unclosed(token: Token) -> bool {
    token.kind matches TokenKind::Punctuation(Punctuation::Quote(quote)) && quote.twin_loc is None
}

/// The finding for a quotation mark without a twin.
pub open spec fn unclosed_quote_finding(token: Token) -> LintView {
    LintView {
        span: token.span,
        lint_kind: LintKind::Formatting,
        suggestions: Seq::empty(),
        message: "This quote has no termination."@,
        priority: 255,
    }
}

/// One finding for each quotation mark without a twin, in token order.
pub open spec fn unclosed_quote_findings(tokens: Seq<Token>) -> Seq<LintView>
    decreases tokens.len(),
{
    if tokens.len() == 0 {
        Seq::empty()
    } else {
        let before = unclosed_quote_findings(tokens.drop_last());
        if is_unclosed(tokens.last()) {
            before.push(unclosed_quote_finding(tokens.last()))
        } else {
            before
        }
    }
}

impl Default for UnclosedQuotes {
    fn default() -> (out: Self)
        ensures
            out == UnclosedQuotes,
    {
        UnclosedQuotes
    }
}

impl Linter for UnclosedQuotes {
    open spec fn findings(&self, tokens: Seq<Token>, source: Seq<char>) -> Seq<LintView> {
        unclosed_quote_findings(tokens)
    }

    fn lint(&mut self, document: &Document) -> (lints: Vec<Lint>)
        ensures
            lint_views(lints@) == old(self).findings(document@.tokens, document@.source),
    {
        let tokens = document.tokens();
        let mut lints: Vec<Lint> = Vec::new();
        let mut i: usize = 0;
        assert(lint_views(lints@) =~= Seq::<LintView>::empty());
        while i < tokens.len()
            invariant
                i <= tokens@.len(),
                lint_views(lints@) == unclosed_quote_findings(tokens@.take(i as int)),
            decreases tokens.len() - i,
        {
            let token = tokens[i];
            proof {
                assert(tokens@.take(i + 1).drop_last() == tokens@.take(i as int));
                assert(tokens@.take(i + 1).last() == token);
            }
            if let TokenKind::Punctuation(Punctuation::Quote(Quote { twin_loc: None })) =
                token.kind {
                let ghost given = lints@;
                let suggestions: Vec<crate::lint::Suggestion> = Vec::new();
                assert(suggestion_views(suggestions@) =~= Seq::<SuggestionView>::empty());
                let lint = Lint {
                    span: token.span,
                    lint_kind: LintKind::Formatting,
                    suggestions,
                    message: String::from_str("This quote has no termination."),
                    priority: 255,
                };
                lints.push(lint);
                proof {
                    lint_views_push(given, lint);
                }
            }
            i += 1;
        }
        assert(tokens@.take(i as int) == tokens@);
        lints
    }

    open spec fn description_text(&self) -> Seq<char> {
        "Quotation marks should always be closed. Unpaired quotation marks are a hallmark of sloppy work."@
    }

    fn description(&self) -> (text: &'static str)
        ensures
            text@ == "Quotation marks should always be closed. Unpaired quotation marks are a hallmark of sloppy work."@,
    {
        "Quotation marks should always be closed. Unpaired quotation marks are a hallmark of sloppy work."
    }
}

} // verus!

//! The two analyses of one text, side by side.

use vstd::prelude::*;
use crate::ai::{
    output_views as located_views, AiFormattedOutput, AiFormattedOutputView, AnalyzeRequest,
};
use crate::report::{output_views, FormattedLintOutput, FormattedLintOutputView, LintRequest};

verus! {

/// Body of a request for both analyses.
#[derive(Debug, Clone, PartialEq, Eq)]
pub struct CombinedAnalysisRequest {
    pub text: String,
}

/// The results of both analyses.
#[derive(Debug, Clone, PartialEq, Eq)]
pub struct CombinedAnalysisResponse {
    lint_results: Vec<FormattedLintOutput>,
    ai_results: Vec<AiFormattedOutput>,
}

impl CombinedAnalysisRequest {
    /// The request for the rule-based analysis of the text: nothing is
    /// ignored.
    pub fn lint_request(&self) -> (request: LintRequest)
        ensures
            request.text@ == self.text@,
            request.ignore@.len() == 0,
    {
        LintRequest { text: self.text.clone(), ignore: Vec::new() }
    }

    /// The request for the analysis of the text by the service.
    pub fn analyze_request(&self) -> (request: AnalyzeRequest)
        ensures
            request.text@ == self.text@,
    {
        AnalyzeRequest { text: self.text.clone() }
    }
}

impl CombinedAnalysisResponse {
    /// The findings of the rules that the response holds.
    pub closed spec fn lint_views(&self) -> Seq<FormattedLintOutputView> {
        output_views(self.lint_results@)
    }

    /// The located passages that the response holds.
    pub closed spec fn ai_views(&self) -> Seq<AiFormattedOutputView> {
        located_views(self.ai_results@)
    }

    /// Put the results of the two analyses together.  An analysis that
    /// failed contributes no results.
    pub fn new(
        lint_results: Option<Vec<FormattedLintOutput>>,
        ai_results: Option<Vec<AiFormattedOutput>>,
    ) -> (response: CombinedAnalysisResponse)
        ensures
            response.lint_views() == match lint_results {
                Some(results) => output_views(results@),
                None => Seq::empty(),
            },
            response.ai_views() == match ai_results {
                Some(results) => located_views(results@),
                None => Seq::empty(),
            },
    {
        let lint_results = match lint_results {
            Some(results) => results,
            None => Vec::new(),
        };
        let ai_results = match ai_results {
            Some(results) => results,
            None => Vec::new(),
        };
        let response = CombinedAnalysisResponse { lint_results, ai_results };
        assert(lint_results@.len() == 0 ==> output_views(lint_results@) =~= Seq::empty());
        assert(ai_results@.len() == 0 ==> located_views(ai_results@) =~= Seq::empty());
        response
    }

    /// The findings of the rules.
    pub fn lint_results(&self) -> (results: &Vec<FormattedLintOutput>)
        ensures
            output_views(results@) == self.lint_views(),
    {
        &self.lint_results
    }

    /// The located passages.
    pub fn ai_results(&self) -> (results: &Vec<AiFormattedOutput>)
        ensures
            located_views(results@) == self.ai_views(),
    {
        &self.ai_results
    }

    /// Take the response apart.
    pub fn into_parts(self) -> (parts: (Vec<FormattedLintOutput>, Vec<AiFormattedOutput>))
        ensures
            output_views(parts.0@) == self.lint_views(),
            located_views(parts.1@) == self.ai_views(),
    {
        (self.lint_results, self.ai_results)
    }
}

} // verus!

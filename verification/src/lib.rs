//! A rule-based linting engine for English prose.
//!
//! Text is tokenized into a [`Document`], a set of rules flags spans of it,
//! overlapping findings are resolved by category, and the survivors are
//! reported in paragraph-relative character offsets.  A second path
//! realigns approximately quoted passages onto the exact span of the
//! paragraph they were taken from.
//!
//! All offsets count characters, never bytes.

pub mod ai;
pub mod analysis;
pub mod comb;
pub mod dictionary;
pub mod distance;
pub mod document;
pub mod lexer;
pub mod lines;
pub mod lint;
pub mod linting;
pub mod paragraphs;
pub mod patterns;
pub mod prompt;
pub mod reading_order;
pub mod report;
pub mod resolve;
pub mod span;
pub mod text;
pub mod token;

pub use ai::{find_and_update_indices, realign, AiFormattedOutput, AnalyzeRequest};
pub use comb::{CombinedAnalysisRequest, CombinedAnalysisResponse};
pub use dictionary::{Dictionary, WordList};
pub use document::{tokenize, Document};
pub use lint::{Lint, LintKind, Suggestion};
pub use linting::boring_words::BoringWords;
pub use linting::lint_group::{run_linters, LintGroup, Rule};
pub use linting::pronoun_contraction::avoid_contraction::AvoidContraction;
pub use linting::pronoun_contraction::should_contract::ShouldContract;
pub use linting::pronoun_contraction::PronounContraction;
pub use linting::that_which::ThatWhich;
pub use linting::unclosed_quotes::UnclosedQuotes;
pub use linting::{Linter, PatternLinter};
pub use patterns::{Pattern, SequencePattern, TokenTest, WordPatternGroup};
pub use prompt::{build_prompt, prepare_text_for_analysis};
pub use report::{lint_text, FormattedLintOutput, LintRequest, Suggestions};
pub use resolve::{get_priority, resolve_conflicts, LintKindPriority};
pub use span::Span;
pub use token::{Punctuation, Quote, Token, TokenKind, WordMetadata};

//! Many rules run as one.

use vstd::prelude::*;
use crate::document::Document;
use crate::lint::{lint_views, Lint, LintView};
use crate::linting::boring_words::BoringWords;
use crate::linting::pronoun_contraction::avoid_contraction::AvoidContraction;
use crate::linting::pronoun_contraction::should_contract::ShouldContract;
use crate::linting::pronoun_contraction::PronounContraction;
use crate::linting::that_which::ThatWhich;
use crate::linting::unclosed_quotes::UnclosedQuotes;
use crate::linting::{lint_with_pattern, Linter};
use crate::token::Token;

verus! {

/// Any one of the rules of this crate.
#[derive(Debug)]
pub enum Rule {
    ThatWhich(ThatWhich),
    BoringWords(BoringWords),
    AvoidContraction(AvoidContraction),
    ShouldContract(ShouldContract),
    PronounContraction(PronounContraction),
    UnclosedQuotes(UnclosedQuotes),
}

impl Rule {
    /// The rule is as its `default` makes it.
    pub open spec fn is_standard(&self) -> bool {
        match self {
            Rule::ThatWhich(rule) => rule.is_standard(),
            Rule::BoringWords(rule) => rule.is_standard(),
            Rule::AvoidContraction(rule) => rule.is_standard(),
            Rule::ShouldContract(rule) => rule.is_standard(),
            Rule::PronounContraction(rule) => rule.is_standard(),
            Rule::UnclosedQuotes(_) => true,
        }
    }

    /// Run the rule.
    pub fn run(&self, document: &Document) -> (lints: Vec<Lint>)
        ensures
            lint_views(lints@) == self.findings(document@.tokens, document@.source),
    {
        match self {
            Rule::ThatWhich(rule) => lint_with_pattern(rule, document),
            Rule::BoringWords(rule) => lint_with_pattern(rule, document),
            Rule::AvoidContraction(rule) => lint_with_pattern(rule, document),
            Rule::ShouldContract(rule) => lint_with_pattern(rule, document),
            Rule::PronounContraction(rule) => {
                let mut lints = lint_with_pattern(&rule.should_contract, document);
                let mut more = lint_with_pattern(&rule.avoid_contraction, document);
                let ghost first = lints@;
                let ghost second = more@;
                lints.append(&mut more);
                assert(lint_views(first + second) =~= lint_views(first) + lint_views(second));
                lints
            },
            Rule::UnclosedQuotes(rule) => {
                let mut rule = *rule;
                rule.lint(document)
            },
        }
    }

    /// What the rule looks for, for a reader.
    pub fn describe(&self) -> (text: &'static str)
        ensures
            text@ == self.description_text(),
    {
        match self {
            Rule::ThatWhich(rule) => Linter::description(rule),
            Rule::BoringWords(rule) => Linter::description(rule),
            Rule::AvoidContraction(rule) => Linter::description(rule),
            Rule::ShouldContract(rule) => Linter::description(rule),
            Rule::PronounContraction(rule) => Linter::description(rule),
            Rule::UnclosedQuotes(rule) => Linter::description(rule),
        }
    }
}

impl Linter for Rule {
    open spec fn findings(&self, tokens: Seq<Token>, source: Seq<char>) -> Seq<LintView> {
        match self {
            Rule::ThatWhich(rule) => rule.findings(tokens, source),
            Rule::BoringWords(rule) => rule.findings(tokens, source),
            Rule::AvoidContraction(rule) => rule.findings(tokens, source),
            Rule::ShouldContract(rule) => rule.findings(tokens, source),
            Rule::PronounContraction(rule) => rule.findings(tokens, source),
            Rule::UnclosedQuotes(rule) => rule.findings(tokens, source),
        }
    }

    open spec fn description_text(&self) -> Seq<char> {
        match self {
            Rule::ThatWhich(rule) => rule.description_text(),
            Rule::BoringWords(rule) => rule.description_text(),
            Rule::AvoidContraction(rule) => rule.description_text(),
            Rule::ShouldContract(rule) => rule.description_text(),
            Rule::PronounContraction(rule) => rule.description_text(),
            Rule::UnclosedQuotes(rule) => rule.description_text(),
        }
    }

    fn lint(&mut self, document: &Document) -> (lints: Vec<Lint>)
        ensures
            lint_views(lints@) == old(self).findings(document@.tokens, document@.source),
    {
        self.run(document)
    }

    fn description(&self) -> (text: &'static str)
        ensures
            text@ == self.description_text(),
    {
        self.describe()
    }
}

/// A rule as it is registered: under a name.
#[derive(Debug)]
pub struct Registered {
    pub name: String,
    pub rule: Rule,
}

/// The rules of a list of registrations.
pub open spec fn rules_of(entries: Seq<Registered>) -> Seq<Rule> {
    entries.map_values(|e: Registered| e.rule)
}

/// The findings of each rule in turn, in the order of the rules.
pub open spec fn merged_findings(rules: Seq<Rule>, tokens: Seq<Token>, source: Seq<char>) -> Seq<
    LintView,
>
    decreases rules.len(),
{
    if rules.len() == 0 {
        Seq::empty()
    } else {
        merged_findings(rules.drop_last(), tokens, source) + rules.last().findings(tokens, source)
    }
}

/// A registry of rules that runs as one rule.  The rules run in the order
/// in which they were registered.
#[derive(Debug)]
pub struct LintGroup {
    entries: Vec<Registered>,
    description: &'static str,
}

impl LintGroup {
    /// The registered rules, in registration order.
    pub closed spec fn rules(&self) -> Seq<Rule> {
        rules_of(self.entries@)
    }

    /// The names under which the rules were registered.
    pub closed spec fn names(&self) -> Seq<Seq<char>> {
        self.entries@.map_values(|e: Registered| e.name@)
    }

    /// The description of the registry as a whole.
    pub closed spec fn group_description(&self) -> Seq<char> {
        self.description@
    }

    /// An empty registry with a description of the whole.
    pub fn new(description: &'static str) -> (group: LintGroup)
        ensures
            group.rules() == Seq::<Rule>::empty(),
            group.names() == Seq::<Seq<char>>::empty(),
            group.group_description() == description@,
    {
        let group = LintGroup { entries: Vec::new(), description };
        assert(group.rules() =~= Seq::<Rule>::empty());
        assert(group.names() =~= Seq::<Seq<char>>::empty());
        group
    }

    /// Register a rule behind those already registered.
    pub fn add(&mut self, name: &str, rule: Rule)
        ensures
            final(self).rules() == old(self).rules().push(rule),
            final(self).names() == old(self).names().push(name@),
            final(self).group_description() == old(self).group_description(),
    {
        self.entries.push(Registered { name: String::from_str(name), rule });
        assert(self.rules() =~= old(self).rules().push(rule));
        assert(self.names() =~= old(self).names().push(name@));
    }

    /// The registry of every rule of this crate.
    pub fn new_curated() -> (group: LintGroup)
        ensures
            group.group_description() == "The rules of this crate, run together."@,
            group.rules().len() == 4,
            group.rules()[0] is PronounContraction,
            group.rules()[1] is ThatWhich,
            group.rules()[2] is BoringWords,
            group.rules()[3] is UnclosedQuotes,
            forall|i: int| 0 <= i < 4 ==> (#[trigger] group.rules()[i]).is_standard(),
    {
        let mut group = LintGroup::new("The rules of this crate, run together.");
        group.add("PronounContraction", Rule::PronounContraction(PronounContraction::default()));
        group.add("ThatWhich", Rule::ThatWhich(ThatWhich::default()));
        group.add("BoringWords", Rule::BoringWords(BoringWords::default()));
        group.add("UnclosedQuotes", Rule::UnclosedQuotes(UnclosedQuotes::default()));
        group
    }

    /// The number of registered rules.
    pub fn len(&self) -> (n: usize)
        ensures
            n == self.rules().len(),
    {
        self.entries.len()
    }

    /// The name under which the rule at `index` was registered.
    pub fn name_of(&self, index: usize) -> (name: Option<&str>)
        ensures
            name is Some == (index < self.rules().len()),
            name matches Some(text) ==> text@ == self.names()[index as int],
    {
        if index < self.entries.len() {
            Some(self.entries[index].name.as_str())
        } else {
            None
        }
    }

    /// The description of the rule at `index`.
    pub fn description_of(&self, index: usize) -> (text: Option<&'static str>)
        ensures
            text is Some == (index < self.rules().len()),
            text matches Some(found) ==> found@ == self.rules()[index as int].description_text(),
    {
        if index < self.entries.len() {
            Some(self.entries[index].rule.describe())
        } else {
            None
        }
    }

    /// Run every rule; the findings of each rule are kept apart, in
    /// registration order.
    pub fn lint_by_rule(&self, document: &Document) -> (found: Vec<Vec<Lint>>)
        ensures
            found@.len() == self.rules().len(),
            forall|i: int|
                0 <= i < found@.len() ==> lint_views((#[trigger] found@[i])@)
                    == self.rules()[i].findings(document@.tokens, document@.source),
    {
        let mut found: Vec<Vec<Lint>> = Vec::new();
        let mut i: usize = 0;
        while i < self.entries.len()
            invariant
                i <= self.entries.len(),
                found@.len() == i,
                forall|k: int|
                    0 <= k < i ==> lint_views((#[trigger] found@[k])@)
                        == self.rules()[k].findings(document@.tokens, document@.source),
            decreases self.entries.len() - i,
        {
            let lints = self.entries[i].rule.run(document);
            found.push(lints);
            i += 1;
        }
        found
    }

    /// Run every rule and put the findings one behind the other.
    pub fn run(&self, document: &Document) -> (lints: Vec<Lint>)
        ensures
            lint_views(lints@) == merged_findings(
                self.rules(),
                document@.tokens,
                document@.source,
            ),
    {
        let mut lints: Vec<Lint> = Vec::new();
        let mut i: usize = 0;
        assert(lint_views(lints@) =~= Seq::<LintView>::empty());
        while i < self.entries.len()
            invariant
                i <= self.entries.len(),
                lint_views(lints@) == merged_findings(
                    self.rules().take(i as int),
                    document@.tokens,
                    document@.source,
                ),
            decreases self.entries.len() - i,
        {
            let mut more = self.entries[i].rule.run(document);
            let ghost first = lints@;
            let ghost second = more@;
            lints.append(&mut more);
            proof {
                assert(lint_views(first + second) =~= lint_views(first) + lint_views(second));
                assert(self.rules().take(i + 1).drop_last() == self.rules().take(i as int));
                assert(self.rules().take(i + 1).last() == self.entries@[i as int].rule);
            }
            i += 1;
        }
        assert(self.rules().take(i as int) == self.rules());
        lints
    }
}

impl Linter for LintGroup {
    open spec fn findings(&self, tokens: Seq<Token>, source: Seq<char>) -> Seq<LintView> {
        merged_findings(self.rules(), tokens, source)
    }

    open spec fn description_text(&self) -> Seq<char> {
        self.group_description()
    }

    fn lint(&mut self, document: &Document) -> (lints: Vec<Lint>)
        ensures
            lint_views(lints@) == old(self).findings(document@.tokens, document@.source),
    {
        self.run(document)
    }

    fn description(&self) -> (text: &'static str)
        ensures
            text@ == self.description_text(),
    {
        self.description
    }
}

/// Run every rule of a registry over a document; the findings of the rules
/// follow each other in the order in which the rules were registered.
pub fn run_linters(document: &Document, registry: &LintGroup) -> (lints: Vec<Lint>)
    ensures
        lint_views(lints@) == merged_findings(
            registry.rules(),
            document@.tokens,
            document@.source,
        ),
{
    registry.run(document)
}

} // verus!

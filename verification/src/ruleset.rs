//! The Terraform ruleset: its rules in the order in which they run, what
//! it tells a host about itself, and what it notes about the files of a
//! batch.

use crate::diagnostic::{
    all_well_ranged, lemma_well_ranged_concat, Diagnostic, DiagnosticModel, RuleContext, RuleLevel,
};
use crate::parser::parsed_document;
use crate::rules::no_deprecated_interpolation::{
    interpolation_findings, NoDeprecatedInterpolationRule,
};
use crate::rules::no_hardcoded_credentials::{credential_findings, NoHardcodedCredentialsRule};
use crate::rules::output_description_required::OutputDescriptionRequiredRule;
use crate::rules::require_provider_version::RequireProviderVersionRule;
use crate::rules::resource_naming_convention::ResourceNamingConventionRule;
use crate::rules::variable_description_required::VariableDescriptionRequiredRule;
use crate::utils::HclRule;
use vstd::prelude::*;
use vstd::string::*;

verus! {

/// A rule of the ruleset.
#[derive(Clone, Copy, Debug, PartialEq, Eq, Structural)]
pub enum TerraformRule {
    NoHardcodedCredentials,
    RequireProviderVersion,
    NoDeprecatedInterpolation,
    ResourceNamingConvention,
    VariableDescriptionRequired,
    OutputDescriptionRequired,
}

/// What a rule that needs the document finds in a text: its findings in
/// the parsed document, and nothing where the text does not parse.
pub open spec fn structural_findings<R: HclRule>(rule: R, text: Seq<char>) -> Seq<
    DiagnosticModel,
> {
    match parsed_document(text) {
        Some(body) => rule.findings(body, text),
        None => Seq::empty(),
    }
}

/// The diagnostics of one rule for a text.
pub open spec fn rule_findings(rule: TerraformRule, text: Seq<char>) -> Seq<DiagnosticModel> {
    match rule {
        TerraformRule::NoHardcodedCredentials => credential_findings(text),
        TerraformRule::RequireProviderVersion => structural_findings(
            RequireProviderVersionRule,
            text,
        ),
        TerraformRule::NoDeprecatedInterpolation => interpolation_findings(text),
        TerraformRule::ResourceNamingConvention => structural_findings(
            ResourceNamingConventionRule,
            text,
        ),
        TerraformRule::VariableDescriptionRequired => structural_findings(
            VariableDescriptionRequiredRule,
            text,
        ),
        TerraformRule::OutputDescriptionRequired => structural_findings(
            OutputDescriptionRequiredRule,
            text,
        ),
    }
}

/// The diagnostics of the given rules for a text: rule by rule in their
/// order, and for each rule in the order in which it finds them.
pub open spec fn ruleset_findings(rules: Seq<TerraformRule>, text: Seq<char>) -> Seq<
    DiagnosticModel,
>
    decreases rules.len(),
{
    if rules.len() == 0 {
        Seq::empty()
    } else {
        ruleset_findings(rules.drop_last(), text) + rule_findings(rules.last(), text)
    }
}

/// The rules of the Terraform ruleset, in the order in which they run.
pub open spec fn terraform_rules() -> Seq<TerraformRule> {
    seq![
        TerraformRule::NoHardcodedCredentials,
        TerraformRule::RequireProviderVersion,
        TerraformRule::NoDeprecatedInterpolation,
        TerraformRule::ResourceNamingConvention,
        TerraformRule::VariableDescriptionRequired,
        TerraformRule::OutputDescriptionRequired,
    ]
}

impl TerraformRule {
    /// The rule's identifier.
    pub open spec fn name(self) -> Seq<char> {
        match self {
            TerraformRule::NoHardcodedCredentials => "no-hardcoded-credentials"@,
            TerraformRule::RequireProviderVersion => "require-provider-version"@,
            TerraformRule::NoDeprecatedInterpolation => "no-deprecated-interpolation"@,
            TerraformRule::ResourceNamingConvention => "resource-naming-convention"@,
            TerraformRule::VariableDescriptionRequired => "variable-description-required"@,
            TerraformRule::OutputDescriptionRequired => "output-description-required"@,
        }
    }

    /// The rule's identifier.
    pub fn id(&self) -> (r: &'static str)
        ensures
            r@ == self.name(),
    {
        match self {
            TerraformRule::NoHardcodedCredentials => NoHardcodedCredentialsRule.id(),
            TerraformRule::RequireProviderVersion => RequireProviderVersionRule.id(),
            TerraformRule::NoDeprecatedInterpolation => NoDeprecatedInterpolationRule.id(),
            TerraformRule::ResourceNamingConvention => ResourceNamingConventionRule.id(),
            TerraformRule::VariableDescriptionRequired => VariableDescriptionRequiredRule.id(),
            TerraformRule::OutputDescriptionRequired => OutputDescriptionRequiredRule.id(),
        }
    }

    /// What the rule is for.
    pub open spec fn summary(self) -> Seq<char> {
        match self {
            TerraformRule::NoHardcodedCredentials => "Detects hardcoded credentials such as passwords, API keys, tokens, and secrets in Terraform files"@,
            TerraformRule::RequireProviderVersion => "Ensures Terraform providers specify version constraints for better dependency management and reproducibility"@,
            TerraformRule::NoDeprecatedInterpolation => "Flags deprecated interpolation syntax in Terraform (e.g., \"${var.name}\") in favor of modern expressions"@,
            TerraformRule::ResourceNamingConvention => "Enforces snake_case naming convention for Terraform resources to maintain consistency"@,
            TerraformRule::VariableDescriptionRequired => "Requires that all Terraform variable blocks include a description for better documentation"@,
            TerraformRule::OutputDescriptionRequired => "Requires that all Terraform output blocks include a description for better documentation"@,
        }
    }

    /// What the rule is for.
    pub fn description(&self) -> (r: &'static str)
        ensures
            r@ == self.summary(),
    {
        match self {
            TerraformRule::NoHardcodedCredentials => NoHardcodedCredentialsRule.description(),
            TerraformRule::RequireProviderVersion => RequireProviderVersionRule.description(),
            TerraformRule::NoDeprecatedInterpolation => NoDeprecatedInterpolationRule.description(),
            TerraformRule::ResourceNamingConvention => ResourceNamingConventionRule.description(),
            TerraformRule::VariableDescriptionRequired => {
                VariableDescriptionRequiredRule.description()
            },
            TerraformRule::OutputDescriptionRequired => OutputDescriptionRequiredRule.description(),
        }
    }

    /// How the rule runs unless configured otherwise.
    pub fn default_config(&self) -> (r: RuleLevel)
        ensures
            r == RuleLevel::Error,
    {
        match self {
            TerraformRule::NoHardcodedCredentials => NoHardcodedCredentialsRule.default_config(),
            TerraformRule::RequireProviderVersion => RequireProviderVersionRule.default_config(),
            TerraformRule::NoDeprecatedInterpolation => {
                NoDeprecatedInterpolationRule.default_config()
            },
            TerraformRule::ResourceNamingConvention => {
                ResourceNamingConventionRule.default_config()
            },
            TerraformRule::VariableDescriptionRequired => {
                VariableDescriptionRequiredRule.default_config()
            },
            TerraformRule::OutputDescriptionRequired => {
                OutputDescriptionRequiredRule.default_config()
            },
        }
    }

    /// Runs the rule on the text of the context.
    pub fn check(&self, ctx: &mut RuleContext)
        ensures
            final(ctx).text == old(ctx).text,
            final(ctx).reported() == old(ctx).reported() + rule_findings(*self, old(ctx).text@),
            all_well_ranged(rule_findings(*self, old(ctx).text@)),
    {
        match self {
            TerraformRule::NoHardcodedCredentials => NoHardcodedCredentialsRule.check(ctx),
            TerraformRule::RequireProviderVersion => RequireProviderVersionRule.check(ctx),
            TerraformRule::NoDeprecatedInterpolation => NoDeprecatedInterpolationRule.check(ctx),
            TerraformRule::ResourceNamingConvention => ResourceNamingConventionRule.check(ctx),
            TerraformRule::VariableDescriptionRequired => {
                VariableDescriptionRequiredRule.check(ctx)
            },
            TerraformRule::OutputDescriptionRequired => OutputDescriptionRequiredRule.check(ctx),
        }
    }
}

/// A named, ordered collection of rules.
#[derive(Clone, Debug, PartialEq, Eq)]
pub struct Ruleset {
    pub id: String,
    pub rules: Vec<TerraformRule>,
}

impl Ruleset {
    /// A ruleset without rules.
    pub fn new(id: &str) -> (r: Ruleset)
        ensures
            r.id@ == id@,
            r.rules@ == Seq::<TerraformRule>::empty(),
    {
        Ruleset { id: String::from_str(id), rules: Vec::new() }
    }

    /// The ruleset with one more rule, which runs after those it has.
    pub fn with_rule(self, rule: TerraformRule) -> (r: Ruleset)
        ensures
            r.id == self.id,
            r.rules@ == self.rules@.push(rule),
    {
        let mut rules = self.rules;
        rules.push(rule);
        Ruleset { id: self.id, rules }
    }

    /// Runs the rules on a text, in their order, and returns what they
    /// report.
    pub fn run(&self, text: &str) -> (r: Vec<Diagnostic>)
        ensures
            crate::diagnostic::models(r@) == ruleset_findings(self.rules@, text@),
            all_well_ranged(crate::diagnostic::models(r@)),
    {
        let mut ctx = RuleContext::new(text);
        let ghost rules = self.rules@;
        let mut i: usize = 0;
        proof {
            assert(rules.take(0) =~= Seq::<TerraformRule>::empty());
        }
        while i < self.rules.len()
            invariant
                i <= self.rules@.len(),
                rules == self.rules@,
                ctx.text == text,
                ctx.reported() == ruleset_findings(rules.take(i as int), text@),
                all_well_ranged(ctx.reported()),
            decreases self.rules@.len() - i,
        {
            proof {
                assert(rules.take(i + 1).drop_last() =~= rules.take(i as int));
                assert(rules.take(i + 1).last() == rules[i as int]);
            }
            let ghost before = ctx.reported();
            self.rules[i].check(&mut ctx);
            proof {
                lemma_well_ranged_concat(before, rule_findings(rules[i as int], text@));
            }
            i = i + 1;
        }
        proof {
            assert(rules.take(self.rules@.len() as int) =~= rules);
        }
        ctx.diagnostics
    }
}

/// The Terraform ruleset.
pub fn create_terraform_ruleset() -> (r: Ruleset)
    ensures
        r.id@ == "terraform"@,
        r.rules@ == terraform_rules(),
{
    let r = Ruleset::new("terraform").with_rule(TerraformRule::NoHardcodedCredentials).with_rule(
        TerraformRule::RequireProviderVersion,
    ).with_rule(TerraformRule::NoDeprecatedInterpolation).with_rule(
        TerraformRule::ResourceNamingConvention,
    ).with_rule(TerraformRule::VariableDescriptionRequired).with_rule(
        TerraformRule::OutputDescriptionRequired,
    );
    proof {
        assert(r.rules@ =~= terraform_rules());
    }
    r
}

/// Where a text does not parse, the rules that need the document find
/// nothing in it, and the ruleset reports what the two rules that read the
/// raw text find: first the credentials, then the interpolations.
pub proof fn lemma_unparsable_text(text: Seq<char>)
    requires
        parsed_document(text) is None,
    ensures
        rule_findings(TerraformRule::RequireProviderVersion, text) == Seq::<
            DiagnosticModel,
        >::empty(),
        rule_findings(TerraformRule::ResourceNamingConvention, text) == Seq::<
            DiagnosticModel,
        >::empty(),
        rule_findings(TerraformRule::VariableDescriptionRequired, text) == Seq::<
            DiagnosticModel,
        >::empty(),
        rule_findings(TerraformRule::OutputDescriptionRequired, text) == Seq::<
            DiagnosticModel,
        >::empty(),
        ruleset_findings(terraform_rules(), text) == credential_findings(text)
            + interpolation_findings(text),
{
    let rules = terraform_rules();
    let r5 = rules.drop_last();
    let r4 = r5.drop_last();
    let r3 = r4.drop_last();
    let r2 = r3.drop_last();
    let r1 = r2.drop_last();
    let r0 = r1.drop_last();
    assert(r0.len() == 0);
    reveal_with_fuel(ruleset_findings, 8);
    assert(ruleset_findings(r1, text) =~= credential_findings(text));
    assert(ruleset_findings(r2, text) =~= credential_findings(text));
    assert(ruleset_findings(r3, text) =~= credential_findings(text) + interpolation_findings(text));
    assert(ruleset_findings(r4, text) =~= ruleset_findings(r3, text));
    assert(ruleset_findings(r5, text) =~= ruleset_findings(r3, text));
    assert(ruleset_findings(rules, text) =~= ruleset_findings(r3, text));
}

} // verus!

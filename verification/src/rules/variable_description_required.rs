//! Every `variable` block is to carry a description.

use crate::diagnostic::{all_well_ranged, DiagnosticModel, RuleContext, RuleLevel};
use crate::document::{BodyModel, TfBody};
use crate::parser::parsed_document;
use crate::utils::{check_descriptions, description_findings, HclRule};
use vstd::prelude::*;

verus! {

#[derive(Clone, Copy, Debug, PartialEq, Eq)]
pub struct VariableDescriptionRequiredRule;

impl HclRule for VariableDescriptionRequiredRule {
    /// One diagnostic for each top-level `variable` block that has a
    /// name and no `description` attribute, in source order.
    open spec fn findings(&self, body: BodyModel, text: Seq<char>) -> Seq<DiagnosticModel> {
        description_findings("variable-description-required"@, "variable"@, body.blocks, text)
    }

    fn check_hcl(&self, body: &TfBody, ctx: &mut RuleContext) {
        check_descriptions(self.id(), "variable", body, ctx);
    }
}

impl VariableDescriptionRequiredRule {
    /// The rule's identifier.
    pub fn id(&self) -> (r: &'static str)
        ensures
            r@ == "variable-description-required"@,
    {
        "variable-description-required"
    }

    /// What the rule is for.
    pub fn description(&self) -> (r: &'static str)
        ensures
            r@ == "Requires that all Terraform variable blocks include a description for better documentation"@,
    {
        "Requires that all Terraform variable blocks include a description for better documentation"
    }

    /// How the rule runs unless configured otherwise.
    pub fn default_config(&self) -> (r: RuleLevel)
        ensures
            r == RuleLevel::Error,
    {
        RuleLevel::Error
    }

    /// Parses the text of the context and reports the variables without
    /// a description. A text that does not parse is skipped.
    pub fn check(&self, ctx: &mut RuleContext)
        ensures
            final(ctx).text == old(ctx).text,
            final(ctx).reported() == old(ctx).reported() + (match parsed_document(old(ctx).text@) {
                Some(body) => self.findings(body, old(ctx).text@),
                None => Seq::empty(),
            }),
            all_well_ranged(
                match parsed_document(old(ctx).text@) {
                    Some(body) => self.findings(body, old(ctx).text@),
                    None => Seq::empty(),
                },
            ),
    {
        HclRule::check(self, ctx);
    }
}

} // verus!

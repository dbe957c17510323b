//! Every provider that a configuration requires is to state a version
//! constraint.

use crate::diagnostic::{
    all_well_ranged, lemma_well_ranged_concat, DiagnosticModel, RuleContext, RuleLevel,
};
use crate::document::{
    AttributeModel, BlockModel, BodyModel, ExpressionModel, TfAttribute, TfBlock, TfBody,
    TfExpression,
};
use crate::parser::parsed_document;
use crate::text::text_equals;
use crate::utils::{lemma_structural_ranges, provider_version_diagnostic, HclRule, TerraformUtils};
use vstd::prelude::*;

verus! {

#[derive(Clone, Copy, Debug, PartialEq, Eq)]
pub struct RequireProviderVersionRule;

/// The value of a provider entry states a version: it is an object with
/// a key `version`.
pub open spec fn has_version(expr: ExpressionModel) -> bool {
    match expr {
        ExpressionModel::Object(entries) => exists|i: int|
            0 <= i < entries.len() && (#[trigger] entries[i]).0 == "version"@,
        _ => false,
    }
}

/// What the rule finds at one provider entry.
pub open spec fn entry_finding(entry: AttributeModel, text: Seq<char>) -> Seq<DiagnosticModel> {
    if has_version(entry.expr) {
        Seq::empty()
    } else {
        seq![provider_version_diagnostic(entry.key, text)]
    }
}

/// What the rule finds at the given provider entries, in their order.
pub open spec fn entry_findings(entries: Seq<AttributeModel>, text: Seq<char>) -> Seq<
    DiagnosticModel,
>
    decreases entries.len(),
{
    if entries.len() == 0 {
        Seq::empty()
    } else {
        entry_findings(entries.drop_last(), text) + entry_finding(entries.last(), text)
    }
}

/// What the rule finds at one block nested in a `terraform` block: the
/// findings at its entries where it is a `required_providers` block.
pub open spec fn nested_finding(block: BlockModel, text: Seq<char>) -> Seq<DiagnosticModel> {
    if block.identifier == "required_providers"@ {
        entry_findings(block.body.attributes, text)
    } else {
        Seq::empty()
    }
}

/// What the rule finds at the blocks nested in a `terraform` block, in
/// their order.
pub open spec fn nested_findings(blocks: Seq<BlockModel>, text: Seq<char>) -> Seq<DiagnosticModel>
    decreases blocks.len(),
{
    if blocks.len() == 0 {
        Seq::empty()
    } else {
        nested_findings(blocks.drop_last(), text) + nested_finding(blocks.last(), text)
    }
}

/// What the rule finds at one top-level block.
pub open spec fn terraform_finding(block: BlockModel, text: Seq<char>) -> Seq<DiagnosticModel> {
    if block.identifier == "terraform"@ {
        nested_findings(block.body.blocks, text)
    } else {
        Seq::empty()
    }
}

/// What the rule finds at the given top-level blocks, in their order.
pub open spec fn terraform_findings(blocks: Seq<BlockModel>, text: Seq<char>) -> Seq<
    DiagnosticModel,
>
    decreases blocks.len(),
{
    if blocks.len() == 0 {
        Seq::empty()
    } else {
        terraform_findings(blocks.drop_last(), text) + terraform_finding(blocks.last(), text)
    }
}

/// A provider entry gives exactly one diagnostic, which names the
/// provider, where its value is no object or an object without the key
/// `version`, and none where its value is an object with that key.
pub proof fn lemma_provider_entry(entry: AttributeModel, text: Seq<char>)
    ensures
        has_version(entry.expr) ==> entry_finding(entry, text) == Seq::<DiagnosticModel>::empty(),
        !has_version(entry.expr) ==> entry_finding(entry, text) == seq![
            provider_version_diagnostic(entry.key, text),
        ],
        !(entry.expr is Object) ==> !has_version(entry.expr),
        provider_version_diagnostic(entry.key, text).message == "Provider '"@ + entry.key
            + "' should specify a version constraint"@,
        provider_version_diagnostic(entry.key, text).code == Some("PROVIDER_VERSION"@),
{
}

/// Every finding of the rule starts no later than it ends.
pub proof fn lemma_entry_findings_ranged(entries: Seq<AttributeModel>, text: Seq<char>)
    ensures
        all_well_ranged(entry_findings(entries, text)),
    decreases entries.len(),
{
    if entries.len() > 0 {
        lemma_entry_findings_ranged(entries.drop_last(), text);
        lemma_structural_ranges(entries.last().key, entries.last().key, entries.last().key, text);
        lemma_well_ranged_concat(
            entry_findings(entries.drop_last(), text),
            entry_finding(entries.last(), text),
        );
    }
}

/// Every finding in the blocks nested in a `terraform` block starts no
/// later than it ends.
pub proof fn lemma_nested_findings_ranged(blocks: Seq<BlockModel>, text: Seq<char>)
    ensures
        all_well_ranged(nested_findings(blocks, text)),
    decreases blocks.len(),
{
    if blocks.len() > 0 {
        lemma_nested_findings_ranged(blocks.drop_last(), text);
        lemma_entry_findings_ranged(blocks.last().body.attributes, text);
        lemma_well_ranged_concat(
            nested_findings(blocks.drop_last(), text),
            nested_finding(blocks.last(), text),
        );
    }
}

/// Every finding in the top-level blocks starts no later than it ends.
pub proof fn lemma_terraform_findings_ranged(blocks: Seq<BlockModel>, text: Seq<char>)
    ensures
        all_well_ranged(terraform_findings(blocks, text)),
    decreases blocks.len(),
{
    if blocks.len() > 0 {
        lemma_terraform_findings_ranged(blocks.drop_last(), text);
        lemma_nested_findings_ranged(blocks.last().body.blocks, text);
        lemma_well_ranged_concat(
            terraform_findings(blocks.drop_last(), text),
            terraform_finding(blocks.last(), text),
        );
    }
}

/// The rule finds one diagnostic for each entry of a `required_providers`
/// block that states no version, and so no more than the block has
/// entries.
pub proof fn lemma_entry_findings_len(entries: Seq<AttributeModel>, text: Seq<char>)
    ensures
        entry_findings(entries, text).len() <= entries.len(),
    decreases entries.len(),
{
    if entries.len() > 0 {
        lemma_entry_findings_len(entries.drop_last(), text);
    }
}

/// Whether the value of a provider entry states a version.
fn states_version(expr: &TfExpression) -> (r: bool)
    ensures
        r == has_version(expr.model()),
{
    match expr {
        TfExpression::Object(entries) => {
            let mut i: usize = 0;
            while i < entries.len()
                invariant
                    i <= entries@.len(),
                    expr.model() is Object,
                    expr.model()->Object_0.len() == entries@.len(),
                    forall|k: int|
                        0 <= k < entries@.len() ==> (#[trigger] expr.model()->Object_0[k]).0
                            == entries@[k].key@,
                    forall|k: int| 0 <= k < i ==> entries@[k].key@ != "version"@,
                decreases entries@.len() - i,
            {
                if text_equals(entries[i].key.as_str(), "version") {
                    proof {
                        assert(expr.model()->Object_0[i as int].0 == "version"@);
                    }
                    return true;
                }
                i = i + 1;
            }
            false
        },
        _ => false,
    }
}

impl HclRule for RequireProviderVersionRule {
    /// One diagnostic for each entry of a `required_providers` block in a
    /// top-level `terraform` block whose value states no version, in
    /// source order.
    open spec fn findings(&self, body: BodyModel, text: Seq<char>) -> Seq<DiagnosticModel> {
        terraform_findings(body.blocks, text)
    }

    fn check_hcl(&self, body: &TfBody, ctx: &mut RuleContext) {
        let ghost blocks = body.model().blocks;
        let ghost text = ctx.text@;
        proof {
            lemma_terraform_findings_ranged(blocks, text);
        }
        let mut i: usize = 0;
        proof {
            assert(blocks.take(0) =~= Seq::<BlockModel>::empty());
            assert(ctx.reported() + Seq::<DiagnosticModel>::empty() =~= ctx.reported());
        }
        while i < body.blocks.len()
            invariant
                i <= body.blocks@.len(),
                ctx.text == old(ctx).text,
                text == ctx.text@,
                blocks == body.model().blocks,
                blocks.len() == body.blocks@.len(),
                ctx.reported() == old(ctx).reported() + terraform_findings(
                    blocks.take(i as int),
                    text,
                ),
            decreases body.blocks@.len() - i,
        {
            let block = &body.blocks[i];
            let ghost before = ctx.reported();
            proof {
                assert(blocks[i as int] == block.model());
                assert(blocks.take(i + 1).drop_last() =~= blocks.take(i as int));
                assert(blocks.take(i + 1).last() == blocks[i as int]);
            }
            if text_equals(block.identifier.as_str(), "terraform") {
                self.check_required_providers_block(block, ctx);
            }
            proof {
                assert(ctx.reported() =~= before + terraform_finding(blocks[i as int], text));
                assert(ctx.reported() =~= old(ctx).reported() + terraform_findings(
                    blocks.take(i + 1),
                    text,
                ));
            }
            i = i + 1;
        }
        proof {
            assert(blocks.take(body.blocks@.len() as int) =~= blocks);
        }
    }
}

impl RequireProviderVersionRule {
    /// The rule's identifier.
    pub fn id(&self) -> (r: &'static str)
        ensures
            r@ == "require-provider-version"@,
    {
        "require-provider-version"
    }

    /// What the rule is for.
    pub fn description(&self) -> (r: &'static str)
        ensures
            r@ == "Ensures Terraform providers specify version constraints for better dependency management and reproducibility"@,
    {
        "Ensures Terraform providers specify version constraints for better dependency management and reproducibility"
    }

    /// How the rule runs unless configured otherwise.
    pub fn default_config(&self) -> (r: RuleLevel)
        ensures
            r == RuleLevel::Error,
    {
        RuleLevel::Error
    }

    /// Parses the text of the context and reports the providers without
    /// a version constraint. A text that does not parse is skipped.
    pub fn check(&self, ctx: &mut RuleContext)
        ensures
            final(ctx).text == old(ctx).text,
            final(ctx).reported() == old(ctx).reported() + (match parsed_document(old(ctx).text@) {
                Some(body) => self.findings(body, old(ctx).text@),
                None => Seq::empty(),
            }),
            all_well_ranged(
                match parsed_document(old(ctx).text@) {
                    Some(body) => self.findings(body, old(ctx).text@),
                    None => Seq::empty(),
                },
            ),
    {
        HclRule::check(self, ctx);
    }

    /// Reports what the rule finds in the `required_providers` blocks of
    /// a `terraform` block.
    pub fn check_required_providers_block(&self, terraform_block: &TfBlock, ctx: &mut RuleContext)
        ensures
            final(ctx).text == old(ctx).text,
            final(ctx).reported() == old(ctx).reported() + nested_findings(
                terraform_block.model().body.blocks,
                old(ctx).text@,
            ),
    {
        let ghost blocks = terraform_block.model().body.blocks;
        let ghost text = ctx.text@;
        let mut i: usize = 0;
        proof {
            assert(blocks.take(0) =~= Seq::<BlockModel>::empty());
            assert(ctx.reported() + Seq::<DiagnosticModel>::empty() =~= ctx.reported());
        }
        while i < terraform_block.body.blocks.len()
            invariant
                i <= terraform_block.body.blocks@.len(),
                ctx.text == old(ctx).text,
                text == ctx.text@,
                blocks == terraform_block.model().body.blocks,
                blocks.len() == terraform_block.body.blocks@.len(),
                ctx.reported() == old(ctx).reported() + nested_findings(
                    blocks.take(i as int),
                    text,
                ),
            decreases terraform_block.body.blocks@.len() - i,
        {
            let nested = &terraform_block.body.blocks[i];
            let ghost before = ctx.reported();
            proof {
                assert(blocks[i as int] == nested.model());
                assert(blocks.take(i + 1).drop_last() =~= blocks.take(i as int));
                assert(blocks.take(i + 1).last() == blocks[i as int]);
            }
            if text_equals(nested.identifier.as_str(), "required_providers") {
                self.check_provider_entries(nested, ctx);
            }
            proof {
                assert(ctx.reported() =~= before + nested_finding(blocks[i as int], text));
                assert(ctx.reported() =~= old(ctx).reported() + nested_findings(
                    blocks.take(i + 1),
                    text,
                ));
            }
            i = i + 1;
        }
        proof {
            assert(blocks.take(terraform_block.body.blocks@.len() as int) =~= blocks);
        }
    }

    /// Reports every entry of a `required_providers` block whose value
    /// states no version.
    pub fn check_provider_entries(&self, required_providers_block: &TfBlock, ctx: &mut RuleContext)
        ensures
            final(ctx).text == old(ctx).text,
            final(ctx).reported() == old(ctx).reported() + entry_findings(
                required_providers_block.model().body.attributes,
                old(ctx).text@,
            ),
    {
        let ghost entries = required_providers_block.model().body.attributes;
        let ghost text = ctx.text@;
        let mut i: usize = 0;
        proof {
            assert(entries.take(0) =~= Seq::<AttributeModel>::empty());
            assert(ctx.reported() + Seq::<DiagnosticModel>::empty() =~= ctx.reported());
        }
        while i < required_providers_block.body.attributes.len()
            invariant
                i <= required_providers_block.body.attributes@.len(),
                ctx.text == old(ctx).text,
                text == ctx.text@,
                entries == required_providers_block.model().body.attributes,
                entries.len() == required_providers_block.body.attributes@.len(),
                ctx.reported() == old(ctx).reported() + entry_findings(
                    entries.take(i as int),
                    text,
                ),
            decreases required_providers_block.body.attributes@.len() - i,
        {
            let entry: &TfAttribute = &required_providers_block.body.attributes[i];
            let ghost before = ctx.reported();
            proof {
                assert(entries[i as int] == entry.model());
                assert(entries.take(i + 1).drop_last() =~= entries.take(i as int));
                assert(entries.take(i + 1).last() == entries[i as int]);
            }
            if !states_version(&entry.expr) {
                let diagnostic = TerraformUtils::create_provider_version_diagnostic(
                    entry.key.as_str(),
                    ctx.text,
                );
                ctx.report(diagnostic);
            }
            proof {
                assert(ctx.reported() =~= before + entry_finding(entries[i as int], text));
                assert(ctx.reported() =~= old(ctx).reported() + entry_findings(
                    entries.take(i + 1),
                    text,
                ));
            }
            i = i + 1;
        }
        proof {
            assert(entries.take(required_providers_block.body.attributes@.len() as int)
                =~= entries);
        }
    }
}

} // verus!

//! Block names are to be written in lower-case snake case.

use crate::diagnostic::{
    all_well_ranged, lemma_well_ranged_concat, DiagnosticModel, RuleContext, RuleLevel, Severity,
};
use crate::document::{BlockModel, BodyModel, TfBody};
use crate::parser::parsed_document;
use crate::pattern::{compile, first_match, is_match, pattern_compiles, regex_source};
use crate::text::text_equals;
use crate::utils::{
    block_name, lemma_structural_ranges, naming_convention_diagnostic, HclRule, TerraformUtils,
};
use vstd::prelude::*;

verus! {

#[derive(Clone, Copy, Debug, PartialEq, Eq)]
pub struct ResourceNamingConventionRule;

/// The pattern of a well-formed name: a lower-case letter, then
/// lower-case letters, digits and underscores, from the first character of
/// the name to its last.
pub open spec fn naming_pattern() -> Seq<char> {
    "^[a-z][a-z0-9_]*$"@
}

/// The kinds of block whose names the rule checks.
pub open spec fn is_named_kind(identifier: Seq<char>) -> bool {
    identifier == "resource"@ || identifier == "data"@ || identifier == "variable"@ || identifier
        == "output"@ || identifier == "locals"@
}

/// The name matches the pattern.
pub open spec fn follows_convention(name: Seq<char>) -> bool {
    first_match(naming_pattern(), name) is Some
}

/// What the rule finds at one block: a diagnostic where the block is of
/// a checked kind and has a name that does not match the pattern.
pub open spec fn naming_finding(block: BlockModel, text: Seq<char>) -> Seq<DiagnosticModel> {
    if is_named_kind(block.identifier) {
        match block_name(block, block.identifier) {
            Some(name) => if follows_convention(name) {
                Seq::empty()
            } else {
                seq![naming_convention_diagnostic(block.identifier, name, text)]
            },
            None => Seq::empty(),
        }
    } else {
        Seq::empty()
    }
}

/// What the rule finds at the given blocks, in their order.
pub open spec fn naming_findings(blocks: Seq<BlockModel>, text: Seq<char>) -> Seq<DiagnosticModel>
    decreases blocks.len(),
{
    if blocks.len() == 0 {
        Seq::empty()
    } else {
        naming_findings(blocks.drop_last(), text) + naming_finding(blocks.last(), text)
    }
}

/// A `resource` or `data` block with two labels gives exactly one
/// diagnostic, a warning with the code `NAMING_CONVENTION` that names its
/// second label, where that label does not match the pattern, and none
/// where it matches.
pub proof fn lemma_resource_naming(block: BlockModel, text: Seq<char>)
    requires
        block.identifier == "resource"@ || block.identifier == "data"@,
        block.labels.len() > 1,
    ensures
        follows_convention(block.labels[1]) ==> naming_finding(block, text) == Seq::<
            DiagnosticModel,
        >::empty(),
        !follows_convention(block.labels[1]) ==> naming_finding(block, text) == seq![
            naming_convention_diagnostic(block.identifier, block.labels[1], text),
        ],
        naming_convention_diagnostic(block.identifier, block.labels[1], text).severity
            == Severity::Warn,
        naming_convention_diagnostic(block.identifier, block.labels[1], text).code == Some(
            "NAMING_CONVENTION"@,
        ),
{
}

/// Every finding of the rule starts no later than it ends.
pub proof fn lemma_naming_findings_ranged(blocks: Seq<BlockModel>, text: Seq<char>)
    ensures
        all_well_ranged(naming_findings(blocks, text)),
    decreases blocks.len(),
{
    if blocks.len() > 0 {
        lemma_naming_findings_ranged(blocks.drop_last(), text);
        let block = blocks.last();
        match block_name(block, block.identifier) {
            Some(name) => {
                lemma_structural_ranges(block.identifier, block.identifier, name, text);
            },
            None => {},
        }
        lemma_well_ranged_concat(
            naming_findings(blocks.drop_last(), text),
            naming_finding(blocks.last(), text),
        );
    }
}

/// The rule finds at most one name per block.
pub proof fn lemma_naming_findings_len(blocks: Seq<BlockModel>, text: Seq<char>)
    ensures
        naming_findings(blocks, text).len() <= blocks.len(),
    decreases blocks.len(),
{
    if blocks.len() > 0 {
        lemma_naming_findings_len(blocks.drop_last(), text);
    }
}

/// Whether a block is of a kind whose name the rule checks.
fn names_block(identifier: &str) -> (r: bool)
    ensures
        r == is_named_kind(identifier@),
{
    text_equals(identifier, "resource") || text_equals(identifier, "data") || text_equals(
        identifier,
        "variable",
    ) || text_equals(identifier, "output") || text_equals(identifier, "locals")
}

impl HclRule for ResourceNamingConventionRule {
    /// One diagnostic for each top-level block of a checked kind whose
    /// name does not match the pattern, in source order. Were the engine
    /// to reject the pattern, the rule would find nothing.
    open spec fn findings(&self, body: BodyModel, text: Seq<char>) -> Seq<DiagnosticModel> {
        if pattern_compiles(naming_pattern()) {
            naming_findings(body.blocks, text)
        } else {
            Seq::empty()
        }
    }

    fn check_hcl(&self, body: &TfBody, ctx: &mut RuleContext) {
        let ghost blocks = body.model().blocks;
        let ghost text = ctx.text@;
        proof {
            lemma_naming_findings_ranged(blocks, text);
        }
        match compile("^[a-z][a-z0-9_]*$") {
            None => {
                proof {
                    assert(ctx.reported() + Seq::<DiagnosticModel>::empty() =~= ctx.reported());
                }
            },
            Some(re) => {
                let mut i: usize = 0;
                proof {
                    assert(blocks.take(0) =~= Seq::<BlockModel>::empty());
                    assert(ctx.reported() + Seq::<DiagnosticModel>::empty() =~= ctx.reported());
                }
                while i < body.blocks.len()
                    invariant
                        i <= body.blocks@.len(),
                        ctx.text == old(ctx).text,
                        text == ctx.text@,
                        blocks == body.model().blocks,
                        blocks.len() == body.blocks@.len(),
                        regex_source(re) == naming_pattern(),
                        ctx.reported() == old(ctx).reported() + naming_findings(
                            blocks.take(i as int),
                            text,
                        ),
                    decreases body.blocks@.len() - i,
                {
                    let block = &body.blocks[i];
                    let ghost before = ctx.reported();
                    proof {
                        assert(blocks[i as int] == block.model());
                        assert(blocks.take(i + 1).drop_last() =~= blocks.take(i as int));
                        assert(blocks.take(i + 1).last() == blocks[i as int]);
                    }
                    let block_type = block.identifier.as_str();
                    if names_block(block_type) {
                        match TerraformUtils::get_block_name(block, block_type) {
                            Some(name) => {
                                if !is_match(&re, name.as_str()) {
                                    let diagnostic =
                                        TerraformUtils::create_naming_convention_diagnostic(
                                        block_type,
                                        name.as_str(),
                                        ctx.text,
                                    );
                                    ctx.report(diagnostic);
                                }
                            },
                            None => {},
                        }
                    }
                    proof {
                        assert(ctx.reported() =~= before + naming_finding(blocks[i as int], text));
                        assert(ctx.reported() =~= old(ctx).reported() + naming_findings(
                            blocks.take(i + 1),
                            text,
                        ));
                    }
                    i = i + 1;
                }
                proof {
                    assert(blocks.take(body.blocks@.len() as int) =~= blocks);
                }
            },
        }
    }
}

impl ResourceNamingConventionRule {
    /// The rule's identifier.
    pub fn id(&self) -> (r: &'static str)
        ensures
            r@ == "resource-naming-convention"@,
    {
        "resource-naming-convention"
    }

    /// What the rule is for.
    pub fn description(&self) -> (r: &'static str)
        ensures
            r@ == "Enforces snake_case naming convention for Terraform resources to maintain consistency"@,
    {
        "Enforces snake_case naming convention for Terraform resources to maintain consistency"
    }

    /// How the rule runs unless configured otherwise.
    pub fn default_config(&self) -> (r: RuleLevel)
        ensures
            r == RuleLevel::Error,
    {
        RuleLevel::Error
    }

    /// Parses the text of the context and reports the names that break
    /// the convention. A text that does not parse is skipped.
    pub fn check(&self, ctx: &mut RuleContext)
        ensures
            final(ctx).text == old(ctx).text,
            final(ctx).reported() == old(ctx).reported() + (match parsed_document(old(ctx).text@) {
                Some(body) => self.findings(body, old(ctx).text@),
                None => Seq::empty(),
            }),
            all_well_ranged(
                match parsed_document(old(ctx).text@) {
                    Some(body) => self.findings(body, old(ctx).text@),
                    None => Seq::empty(),
                },
            ),
    {
        HclRule::check(self, ctx);
    }
}

} // verus!

//! What the rules share: parsing, position conversion, block names and
//! the diagnostics of the structural rules.

use crate::diagnostic::{
    all_well_ranged, lemma_well_ranged_concat, Diagnostic, DiagnosticModel, RuleContext, Severity,
};
use crate::document::{BlockLabel, BlockModel, BodyModel, TfBlock, TfBody};
use crate::parser::{parse, parsed_document};
use crate::position::{lemma_position_ordered, position_at, position_in, Position, Range};
use crate::text::{
    find, first_occurrence, lemma_encode_concat, lemma_encode_len, lemma_first_occurrence_from,
    lemma_scalar_starts_after_ascii, scalar_start, slice_text, text_equals,
};
use vstd::prelude::*;
use vstd::string::*;
use vstd::utf8::*;

verus! {

/// The upper-case form of a character, which may be several characters.
pub uninterp spec fn uppercase_of(c: char) -> Seq<char>;

/// `char::to_uppercase`, its characters collected into a string.
#[verifier::external_body]
fn to_uppercase(c: char) -> (r: String)
    ensures
        r@ == uppercase_of(c),
{
    c.to_uppercase().collect()
}

/// The `Debug` formatting of a value.
#[verifier::external_body]
fn debug_text<T: std::fmt::Debug>(item: &T) -> String {
    format!("{:?}", item)
}

/// A text with its first character in upper case.
pub open spec fn capitalized(s: Seq<char>) -> Seq<char> {
    if s.len() == 0 {
        s
    } else {
        uppercase_of(s[0]) + s.drop_first()
    }
}

/// The bytes without the double quotes at their start.
pub open spec fn skip_quotes(bytes: Seq<u8>) -> Seq<u8>
    decreases bytes.len(),
{
    if bytes.len() > 0 && bytes[0] == 0x22u8 {
        skip_quotes(bytes.drop_first())
    } else {
        bytes
    }
}

/// The bytes without the double quotes at their end.
pub open spec fn drop_quotes(bytes: Seq<u8>) -> Seq<u8>
    decreases bytes.len(),
{
    if bytes.len() > 0 && bytes.last() == 0x22u8 {
        drop_quotes(bytes.drop_last())
    } else {
        bytes
    }
}

/// The bytes without the double quotes at either end.
pub open spec fn trimmed(bytes: Seq<u8>) -> Seq<u8> {
    drop_quotes(skip_quotes(bytes))
}

/// The name of a block of the given kind: the second label of a
/// `resource` or `data` block, the first label of a `variable`, `output`
/// or `locals` block, and none for any other kind or where the label is
/// missing.
pub open spec fn block_name(block: BlockModel, block_type: Seq<char>) -> Option<Seq<char>> {
    if block_type == "resource"@ || block_type == "data"@ {
        if block.labels.len() > 1 {
            Some(block.labels[1])
        } else {
            None
        }
    } else if block_type == "variable"@ || block_type == "output"@ || block_type == "locals"@ {
        if block.labels.len() > 0 {
            Some(block.labels[0])
        } else {
            None
        }
    } else {
        None
    }
}

/// The body of the block has an attribute with the key `description`.
pub open spec fn has_description(block: BlockModel) -> bool {
    exists|i: int|
        0 <= i < block.body.attributes.len() && (#[trigger] block.body.attributes[i]).key
            == "description"@
}

/// Where a diagnostic points that looks for `needle` in the text: at its
/// first occurrence, or at the start of the text where it does not occur.
pub open spec fn found_at(bytes: Seq<u8>, needle: Seq<u8>) -> int {
    match first_occurrence(bytes, needle) {
        Some(at) => at,
        None => 0,
    }
}

/// The text `<block type> "<name>"` that opens a block.
pub open spec fn block_header(block_type: Seq<char>, block_name: Seq<char>) -> Seq<char> {
    block_type + " \""@ + block_name + "\""@
}

/// The diagnostic for a block without a description. It spans the first
/// occurrence of the block's header in the text.
pub open spec fn missing_description_diagnostic(
    rule_id: Seq<char>,
    block_type: Seq<char>,
    block_name: Seq<char>,
    text: Seq<char>,
) -> DiagnosticModel {
    let bytes = encode_utf8(text);
    let header = encode_utf8(block_header(block_type, block_name));
    let start = found_at(bytes, header);
    DiagnosticModel {
        rule_id,
        message: capitalized(block_type) + " '"@ + block_name + "' should have a description"@,
        severity: Severity::Warn,
        range: (position_at(bytes, start as nat), position_at(bytes, (start + header.len()) as nat)),
        code: Some("MISSING_DESCRIPTION"@),
        suggest: None,
        docs_url: Some("https://forseti.dev/rules/terraform/"@ + rule_id),
    }
}

/// Where the name of a block is taken to stand: just inside the first
/// occurrence of the quoted name, else at the first occurrence of the
/// bare name, else at the start of the text.
pub open spec fn name_start(bytes: Seq<u8>, block_name: Seq<char>) -> int {
    match first_occurrence(bytes, encode_utf8("\""@ + block_name + "\""@)) {
        Some(at) => at + 1,
        None => found_at(bytes, encode_utf8(block_name)),
    }
}

/// The diagnostic for a block whose name breaks the naming convention. It
/// spans the name where [`name_start`] finds it.
pub open spec fn naming_convention_diagnostic(
    block_type: Seq<char>,
    block_name: Seq<char>,
    text: Seq<char>,
) -> DiagnosticModel {
    let bytes = encode_utf8(text);
    let start = name_start(bytes, block_name);
    DiagnosticModel {
        rule_id: "resource-naming-convention"@,
        message: block_type + " name '"@ + block_name + "' should follow snake_case convention"@,
        severity: Severity::Warn,
        range: (
            position_at(bytes, start as nat),
            position_at(bytes, (start + encode_utf8(block_name).len()) as nat),
        ),
        code: Some("NAMING_CONVENTION"@),
        suggest: None,
        docs_url: Some("https://forseti.dev/rules/terraform/resource-naming-convention"@),
    }
}

/// The diagnostic for a provider without a version constraint. It spans
/// the provider's name at the first occurrence of `<name> =` in the text.
pub open spec fn provider_version_diagnostic(
    provider_name: Seq<char>,
    text: Seq<char>,
) -> DiagnosticModel {
    let bytes = encode_utf8(text);
    let start = found_at(bytes, encode_utf8(provider_name + " ="@));
    DiagnosticModel {
        rule_id: "require-provider-version"@,
        message: "Provider '"@ + provider_name + "' should specify a version constraint"@,
        severity: Severity::Warn,
        range: (
            position_at(bytes, start as nat),
            position_at(bytes, (start + encode_utf8(provider_name).len()) as nat),
        ),
        code: Some("PROVIDER_VERSION"@),
        suggest: None,
        docs_url: Some("https://forseti.dev/rules/terraform/require-provider-version"@),
    }
}

/// The diagnostics of the structural rules start no later than they end.
pub proof fn lemma_structural_ranges(
    rule_id: Seq<char>,
    block_type: Seq<char>,
    name: Seq<char>,
    text: Seq<char>,
)
    ensures
        missing_description_diagnostic(rule_id, block_type, name, text).well_ranged(),
        naming_convention_diagnostic(block_type, name, text).well_ranged(),
        provider_version_diagnostic(name, text).well_ranged(),
{
    let bytes = encode_utf8(text);
    let header = encode_utf8(block_header(block_type, name));
    lemma_first_occurrence_from(bytes, header, 0);
    let at = found_at(bytes, header);
    lemma_position_ordered(bytes, at as nat, (at + header.len()) as nat);
    lemma_first_occurrence_from(bytes, encode_utf8("\""@ + name + "\""@), 0);
    lemma_first_occurrence_from(bytes, encode_utf8(name), 0);
    let inner = name_start(bytes, name);
    lemma_position_ordered(bytes, inner as nat, (inner + encode_utf8(name).len()) as nat);
    lemma_first_occurrence_from(bytes, encode_utf8(name + " ="@), 0);
    let entry = found_at(bytes, encode_utf8(name + " ="@));
    lemma_position_ordered(bytes, entry as nat, (entry + encode_utf8(name).len()) as nat);
}

/// The offset at which `needle` first occurs in `text`, or zero.
fn locate(text: &str, needle: &str) -> (r: usize)
    ensures
        r == found_at(text.spec_bytes(), needle.spec_bytes()),
        first_occurrence(text.spec_bytes(), needle.spec_bytes()) is Some ==> r
            + needle.spec_bytes().len() <= text.spec_bytes().len(),
{
    match find(text.as_bytes(), needle.as_bytes()) {
        Some(at) => at,
        None => 0,
    }
}

/// Removes the double quotes at the start and at the end of a text.
pub fn trim_quotes(s: &str) -> (r: String)
    ensures
        encode_utf8(r@) == trimmed(s.spec_bytes()),
{
    let bytes = s.as_bytes();
    proof {
        encode_utf8_valid_utf8(s@);
        assert(bytes@.subrange(0, bytes@.len() as int) =~= bytes@);
    }
    let mut from: usize = 0;
    while from < bytes.len() && bytes[from] == 0x22u8
        invariant
            from <= bytes@.len(),
            bytes@ == s.spec_bytes(),
            valid_utf8(bytes@),
            scalar_start(bytes@, from as int),
            skip_quotes(bytes@) == skip_quotes(bytes@.subrange(from as int, bytes@.len() as int)),
        decreases bytes@.len() - from,
    {
        proof {
            lemma_scalar_starts_after_ascii(bytes@, from as int);
            let rest = bytes@.subrange(from as int, bytes@.len() as int);
            assert(rest.drop_first() =~= bytes@.subrange(from + 1, bytes@.len() as int));
        }
        from = from + 1;
    }
    let ghost kept = bytes@.subrange(from as int, bytes@.len() as int);
    proof {
        assert(skip_quotes(bytes@) == kept);
    }
    let mut to: usize = bytes.len();
    while from < to && bytes[to - 1] == 0x22u8
        invariant
            from <= to <= bytes@.len(),
            bytes@ == s.spec_bytes(),
            valid_utf8(bytes@),
            scalar_start(bytes@, to as int),
            kept == bytes@.subrange(from as int, bytes@.len() as int),
            drop_quotes(kept) == drop_quotes(bytes@.subrange(from as int, to as int)),
        decreases to,
    {
        proof {
            let part = bytes@.subrange(from as int, to as int);
            assert(part.drop_last() =~= bytes@.subrange(from as int, to - 1));
        }
        to = to - 1;
    }
    let part = slice_text(s, from, to);
    let r = String::from_str(part);
    proof {
        assert(r@ == part@);
    }
    r
}

/// What a description rule finds at one block: a diagnostic where the
/// block is of the rule's kind, has a name and has no description.
pub open spec fn description_finding(
    rule_id: Seq<char>,
    kind: Seq<char>,
    block: BlockModel,
    text: Seq<char>,
) -> Seq<DiagnosticModel> {
    if block.identifier == kind {
        match block_name(block, kind) {
            Some(name) => if has_description(block) {
                Seq::empty()
            } else {
                seq![missing_description_diagnostic(rule_id, kind, name, text)]
            },
            None => Seq::empty(),
        }
    } else {
        Seq::empty()
    }
}

/// What a description rule finds at the given blocks, in their order.
pub open spec fn description_findings(
    rule_id: Seq<char>,
    kind: Seq<char>,
    blocks: Seq<BlockModel>,
    text: Seq<char>,
) -> Seq<DiagnosticModel>
    decreases blocks.len(),
{
    if blocks.len() == 0 {
        Seq::empty()
    } else {
        description_findings(rule_id, kind, blocks.drop_last(), text) + description_finding(
            rule_id,
            kind,
            blocks.last(),
            text,
        )
    }
}

/// A `variable` or `output` block with a label gives exactly one
/// diagnostic, with the code `MISSING_DESCRIPTION` and naming the block,
/// where its body has no `description` attribute, and none where it has
/// one.
pub proof fn lemma_description_finding(
    rule_id: Seq<char>,
    kind: Seq<char>,
    block: BlockModel,
    text: Seq<char>,
)
    requires
        kind == "variable"@ || kind == "output"@,
        block.identifier == kind,
        block.labels.len() > 0,
    ensures
        has_description(block) ==> description_finding(rule_id, kind, block, text) == Seq::<
            DiagnosticModel,
        >::empty(),
        !has_description(block) ==> description_finding(rule_id, kind, block, text) == seq![
            missing_description_diagnostic(rule_id, kind, block.labels[0], text),
        ],
        missing_description_diagnostic(rule_id, kind, block.labels[0], text).code == Some(
            "MISSING_DESCRIPTION"@,
        ),
        missing_description_diagnostic(rule_id, kind, block.labels[0], text).severity
            == Severity::Warn,
{
    reveal_strlit("variable");
    reveal_strlit("output");
    reveal_strlit("resource");
    reveal_strlit("data");
    assert("variable"@[0] != "resource"@[0]);
    assert("variable"@[0] != "data"@[0]);
    assert("output"@[0] != "resource"@[0]);
    assert("output"@[0] != "data"@[0]);
    assert(block_name(block, kind) == Some(block.labels[0]));
}

/// Every missing description that a rule finds starts no later than it
/// ends.
pub proof fn lemma_description_findings_ranged(
    rule_id: Seq<char>,
    kind: Seq<char>,
    blocks: Seq<BlockModel>,
    text: Seq<char>,
)
    ensures
        all_well_ranged(description_findings(rule_id, kind, blocks, text)),
    decreases blocks.len(),
{
    if blocks.len() > 0 {
        lemma_description_findings_ranged(rule_id, kind, blocks.drop_last(), text);
        match block_name(blocks.last(), kind) {
            Some(name) => {
                lemma_structural_ranges(rule_id, kind, name, text);
            },
            None => {},
        }
        lemma_well_ranged_concat(
            description_findings(rule_id, kind, blocks.drop_last(), text),
            description_finding(rule_id, kind, blocks.last(), text),
        );
    }
}

/// A rule finds at most one missing description per block.
pub proof fn lemma_description_findings_len(
    rule_id: Seq<char>,
    kind: Seq<char>,
    blocks: Seq<BlockModel>,
    text: Seq<char>,
)
    ensures
        description_findings(rule_id, kind, blocks, text).len() <= blocks.len(),
    decreases blocks.len(),
{
    if blocks.len() > 0 {
        lemma_description_findings_len(rule_id, kind, blocks.drop_last(), text);
    }
}

/// Reports every top-level block of the given kind that has a name and no
/// description.
pub fn check_descriptions(rule_id: &str, kind: &str, body: &TfBody, ctx: &mut RuleContext)
    ensures
        final(ctx).text == old(ctx).text,
        final(ctx).reported() == old(ctx).reported() + description_findings(
            rule_id@,
            kind@,
            body.model().blocks,
            old(ctx).text@,
        ),
        all_well_ranged(
            description_findings(rule_id@, kind@, body.model().blocks, old(ctx).text@),
        ),
{
    let ghost blocks = body.model().blocks;
    let ghost text = ctx.text@;
    let mut i: usize = 0;
    proof {
        assert(blocks.take(0) =~= Seq::<BlockModel>::empty());
        assert(ctx.reported() + Seq::<DiagnosticModel>::empty() =~= ctx.reported());
    }
    while i < body.blocks.len()
        invariant
            i <= body.blocks@.len(),
            ctx.text == old(ctx).text,
            text == ctx.text@,
            blocks == body.model().blocks,
            blocks.len() == body.blocks@.len(),
            ctx.reported() == old(ctx).reported() + description_findings(
                rule_id@,
                kind@,
                blocks.take(i as int),
                text,
            ),
        decreases body.blocks@.len() - i,
    {
        let block = &body.blocks[i];
        let ghost before = ctx.reported();
        proof {
            assert(blocks[i as int] == block.model());
            assert(blocks.take(i + 1).drop_last() =~= blocks.take(i as int));
            assert(blocks.take(i + 1).last() == blocks[i as int]);
        }
        if text_equals(block.identifier.as_str(), kind) {
            match TerraformUtils::get_block_name(block, kind) {
                Some(name) => {
                    if !TerraformUtils::has_description_attribute(block) {
                        let diagnostic = TerraformUtils::create_missing_description_diagnostic(
                            rule_id,
                            kind,
                            name.as_str(),
                            ctx.text,
                        );
                        ctx.report(diagnostic);
                    }
                },
                None => {},
            }
        }
        proof {
            assert(ctx.reported() =~= before + description_finding(
                rule_id@,
                kind@,
                blocks[i as int],
                text,
            ));
            assert(ctx.reported() =~= old(ctx).reported() + description_findings(
                rule_id@,
                kind@,
                blocks.take(i + 1),
                text,
            ));
        }
        i = i + 1;
    }
    proof {
        assert(blocks.take(body.blocks@.len() as int) =~= blocks);
        lemma_description_findings_ranged(rule_id@, kind@, blocks, text);
    }
}

/// The utilities that the rules share.
pub struct TerraformUtils;

impl TerraformUtils {
    /// Parses a text into a document. A text that is not valid HCL gives
    /// `None`.
    pub fn parse_hcl(text: &str) -> (r: Option<TfBody>)
        ensures
            match r {
                Some(body) => parsed_document(text@) == Some(body.model()),
                None => parsed_document(text@) is None,
            },
    {
        parse(text)
    }

    /// Converts a byte offset of `text` to a position. An offset at or past
    /// the end of the text converts to the position of its end.
    pub fn offset_to_position(offset: usize, text: &str) -> (p: Position)
        ensures
            p.place() == position_at(text.spec_bytes(), offset as nat),
    {
        position_in(text.as_bytes(), offset)
    }

    /// The text of a block label.
    pub fn block_label_to_string(label: &BlockLabel) -> (r: String)
        ensures
            r@ == label.text(),
    {
        match label {
            BlockLabel::Identifier(s) => s.clone(),
            BlockLabel::Text(s) => s.clone(),
        }
    }

    /// The `Debug` formatting of a value without the double quotes at its
    /// start and at its end.
    pub fn debug_to_string<T: std::fmt::Debug>(item: &T) -> (r: String)
        ensures
            exists|formatted: Seq<char>|
                encode_utf8(r@) == trimmed(#[trigger] encode_utf8(formatted)),
    {
        let formatted = debug_text(item);
        let r = trim_quotes(formatted.as_str());
        proof {
            assert(encode_utf8(r@) == trimmed(encode_utf8(formatted@)));
        }
        r
    }

    /// The name of a block of the given kind.
    pub fn get_block_name(block: &TfBlock, block_type: &str) -> (r: Option<String>)
        ensures
            match r {
                Some(name) => block_name(block.model(), block_type@) == Some(name@),
                None => block_name(block.model(), block_type@) is None,
            },
    {
        if text_equals(block_type, "resource") || text_equals(block_type, "data") {
            if block.labels.len() > 1 {
                Some(Self::block_label_to_string(&block.labels[1]))
            } else {
                None
            }
        } else if text_equals(block_type, "variable") || text_equals(block_type, "output")
            || text_equals(block_type, "locals") {
            if block.labels.len() > 0 {
                Some(Self::block_label_to_string(&block.labels[0]))
            } else {
                None
            }
        } else {
            None
        }
    }

    /// Builds the diagnostic for a block without a description.
    pub fn create_missing_description_diagnostic(
        rule_id: &str,
        block_type: &str,
        block_name: &str,
        text: &str,
    ) -> (d: Diagnostic)
        ensures
            d@ == missing_description_diagnostic(rule_id@, block_type@, block_name@, text@),
    {
        let mut header = String::from_str(block_type);
        header.append(" \"");
        header.append(block_name);
        header.append("\"");
        let start = locate(text, header.as_str());
        let bytes = text.as_bytes();
        let text_len: usize = bytes.len();
        let header_len: usize = header.as_str().as_bytes().len();
        proof {
            assert(start == 0 || start + header_len <= text_len);
        }
        let start_pos = position_in(bytes, start);
        let end_pos = position_in(bytes, start + header_len);
        let mut message = Self::capitalize_first(block_type);
        message.append(" '");
        message.append(block_name);
        message.append("' should have a description");
        let mut docs_url = String::from_str("https://forseti.dev/rules/terraform/");
        docs_url.append(rule_id);
        Diagnostic {
            rule_id: String::from_str(rule_id),
            message,
            severity: Severity::Warn,
            range: Range { start: start_pos, end: end_pos },
            code: Some(String::from_str("MISSING_DESCRIPTION")),
            suggest: None,
            docs_url: Some(docs_url),
        }
    }

    /// Builds the diagnostic for a block whose name breaks the naming
    /// convention.
    pub fn create_naming_convention_diagnostic(
        block_type: &str,
        block_name: &str,
        text: &str,
    ) -> (d: Diagnostic)
        ensures
            d@ == naming_convention_diagnostic(block_type@, block_name@, text@),
    {
        let mut quoted = String::from_str("\"");
        quoted.append(block_name);
        quoted.append("\"");
        let bytes = text.as_bytes();
        let text_len: usize = bytes.len();
        let name_len: usize = block_name.as_bytes().len();
        proof {
            reveal_strlit("\"");
            lemma_encode_concat("\""@ + block_name@, "\""@);
            lemma_encode_concat("\""@, block_name@);
            lemma_encode_len("\""@);
        }
        let start: usize = match find(bytes, quoted.as_str().as_bytes()) {
            Some(at) => at + 1,
            None => locate(text, block_name),
        };
        proof {
            assert(start == 0 || start + name_len <= text_len);
        }
        let start_pos = position_in(bytes, start);
        let end_pos = position_in(bytes, start + name_len);
        let mut message = String::from_str(block_type);
        message.append(" name '");
        message.append(block_name);
        message.append("' should follow snake_case convention");
        Diagnostic {
            rule_id: String::from_str("resource-naming-convention"),
            message,
            severity: Severity::Warn,
            range: Range { start: start_pos, end: end_pos },
            code: Some(String::from_str("NAMING_CONVENTION")),
            suggest: None,
            docs_url: Some(
                String::from_str("https://forseti.dev/rules/terraform/resource-naming-convention"),
            ),
        }
    }

    /// Builds the diagnostic for a provider without a version constraint.
    pub fn create_provider_version_diagnostic(provider_name: &str, text: &str) -> (d: Diagnostic)
        ensures
            d@ == provider_version_diagnostic(provider_name@, text@),
    {
        let mut assignment = String::from_str(provider_name);
        assignment.append(" =");
        proof {
            lemma_encode_concat(provider_name@, " ="@);
        }
        let start = locate(text, assignment.as_str());
        let bytes = text.as_bytes();
        let text_len: usize = bytes.len();
        let name_len: usize = provider_name.as_bytes().len();
        proof {
            assert(start == 0 || start + name_len <= text_len);
        }
        let start_pos = position_in(bytes, start);
        let end_pos = position_in(bytes, start + name_len);
        let mut message = String::from_str("Provider '");
        message.append(provider_name);
        message.append("' should specify a version constraint");
        Diagnostic {
            rule_id: String::from_str("require-provider-version"),
            message,
            severity: Severity::Warn,
            range: Range { start: start_pos, end: end_pos },
            code: Some(String::from_str("PROVIDER_VERSION")),
            suggest: None,
            docs_url: Some(
                String::from_str("https://forseti.dev/rules/terraform/require-provider-version"),
            ),
        }
    }

    /// Whether the body of a block has an attribute with the key
    /// `description`.
    pub fn has_description_attribute(block: &TfBlock) -> (r: bool)
        ensures
            r == has_description(block.model()),
    {
        let mut i: usize = 0;
        while i < block.body.attributes.len()
            invariant
                i <= block.body.attributes@.len(),
                forall|k: int|
                    0 <= k < i ==> (#[trigger] block.model().body.attributes[k]).key
                        != "description"@,
            decreases block.body.attributes@.len() - i,
        {
            if text_equals(block.body.attributes[i].key.as_str(), "description") {
                proof {
                    assert(block.model().body.attributes[i as int].key == "description"@);
                }
                return true;
            }
            i = i + 1;
        }
        false
    }

    /// A text with its first character in upper case.
    pub fn capitalize_first(s: &str) -> (r: String)
        ensures
            r@ == capitalized(s@),
    {
        let n = s.unicode_len();
        if n == 0 {
            String::from_str(s)
        } else {
            let mut r = to_uppercase(s.get_char(0));
            r.append(s.substring_char(1, n));
            proof {
                assert(s@.subrange(1, n as int) =~= s@.drop_first());
            }
            r
        }
    }
}

/// A rule that inspects the parsed document. The rule says what it finds
/// in a document; parsing, and skipping the text that does not parse, is
/// the same for every such rule.
pub trait HclRule {
    /// The diagnostics of the rule for a document parsed from `text`.
    spec fn findings(&self, body: BodyModel, text: Seq<char>) -> Seq<DiagnosticModel>;

    /// Reports what the rule finds in the document.
    fn check_hcl(&self, body: &TfBody, ctx: &mut RuleContext)
        ensures
            final(ctx).text == old(ctx).text,
            final(ctx).reported() == old(ctx).reported() + self.findings(
                body.model(),
                old(ctx).text@,
            ),
            all_well_ranged(self.findings(body.model(), old(ctx).text@)),
    ;

    /// Parses the text of the context and reports what the rule finds in
    /// the document. A text that does not parse is skipped: nothing is
    /// reported on it.
    fn check(&self, ctx: &mut RuleContext)
        ensures
            final(ctx).text == old(ctx).text,
            final(ctx).reported() == old(ctx).reported() + (match parsed_document(old(ctx).text@) {
                Some(body) => self.findings(body, old(ctx).text@),
                None => Seq::empty(),
            }),
            all_well_ranged(
                match parsed_document(old(ctx).text@) {
                    Some(body) => self.findings(body, old(ctx).text@),
                    None => Seq::empty(),
                },
            ),
    {
        match TerraformUtils::parse_hcl(ctx.text) {
            Some(body) => {
                self.check_hcl(&body, ctx);
            },
            None => {
                proof {
                    assert(ctx.reported() + Seq::<DiagnosticModel>::empty() =~= ctx.reported());
                }
            },
        }
    }
}

} // verus!

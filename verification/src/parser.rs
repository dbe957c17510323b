//! The bridge to the HCL parser: the parsed tree is read through a few
//! accessors and rebuilt as a [`TfBody`].

use crate::document::{
    AttributeModel, BlockLabel, BlockModel, BodyModel, ExpressionModel, ObjectEntry, TfAttribute,
    TfBlock, TfBody, TfExpression,
};
use vstd::prelude::*;

verus! {

/// What the parser makes of a text: the document, or nothing where the
/// text is not valid HCL.
pub uninterp spec fn parsed_document(text: Seq<char>) -> Option<BodyModel>;

/// What a parsed body holds.
pub uninterp spec fn body_content(body: hcl::Body) -> BodyModel;

/// What a parsed block holds.
pub uninterp spec fn block_content(block: hcl::Block) -> BlockModel;

/// What a parsed attribute holds.
pub uninterp spec fn attribute_content(attribute: hcl::Attribute) -> AttributeModel;

/// What a parsed expression holds.
pub uninterp spec fn expression_content(expr: hcl::Expression) -> ExpressionModel;

/// The parts of a parsed expression, one level deep.
pub enum ExpressionParts<'a> {
    Text(String),
    Number(String),
    Bool(bool),
    Object(Vec<(String, &'a hcl::Expression)>),
    Array(Vec<&'a hcl::Expression>),
    Other,
}

impl<'a> ExpressionParts<'a> {
    /// The parts are those of the expression `whole`.
    pub open spec fn parts_of(self, whole: ExpressionModel) -> bool {
        match self {
            ExpressionParts::Text(s) => whole == ExpressionModel::Text(s@),
            ExpressionParts::Number(s) => whole == ExpressionModel::Number(s@),
            ExpressionParts::Bool(b) => whole == ExpressionModel::Bool(b),
            ExpressionParts::Object(entries) => whole == ExpressionModel::Object(
                Seq::new(
                    entries@.len(),
                    |i: int| (entries@[i].0@, expression_content(*entries@[i].1)),
                ),
            ),
            ExpressionParts::Array(items) => whole == ExpressionModel::Array(
                Seq::new(items@.len(), |i: int| expression_content(*items@[i])),
            ),
            ExpressionParts::Other => whole == ExpressionModel::Other,
        }
    }
}

/// `hcl::from_str` at the type `hcl::Body`: the parsed document, or `None`
/// where the parser reports an error. The parser descends into nested
/// expressions and blocks by recursion, so how deep a nesting it can take
/// is a matter of the stack it runs on; nothing is claimed of a text that
/// exhausts it.
#[verifier::external_body]
fn parse_document(text: &str) -> (r: Option<hcl::Body>)
    ensures
        match r {
            Some(body) => parsed_document(text@) == Some(body_content(body)),
            None => parsed_document(text@) is None,
        },
{
    hcl::from_str::<hcl::Body>(text).ok()
}

/// `hcl::Body::blocks`: the blocks of a body, in source order.
#[verifier::external_body]
fn body_blocks(body: &hcl::Body) -> (r: Vec<&hcl::Block>)
    ensures
        r@.len() == body_content(*body).blocks.len(),
        forall|i: int|
            0 <= i < r@.len() ==> block_content(*#[trigger] r@[i]) == body_content(*body).blocks[i],
{
    body.blocks().collect()
}

/// `hcl::Body::attributes`: the attributes of a body, in source order.
#[verifier::external_body]
fn body_attributes(body: &hcl::Body) -> (r: Vec<&hcl::Attribute>)
    ensures
        r@.len() == body_content(*body).attributes.len(),
        forall|i: int|
            0 <= i < r@.len() ==> attribute_content(*#[trigger] r@[i]) == body_content(
                *body,
            ).attributes[i],
{
    body.attributes().collect()
}

/// `hcl::Block::identifier`: the block's identifier.
#[verifier::external_body]
fn block_identifier(block: &hcl::Block) -> (r: String)
    ensures
        r@ == block_content(*block).identifier,
{
    block.identifier().to_string()
}

/// `hcl::Block::labels`: the block's labels in source order, each with
/// its text and whether it was written bare or quoted.
#[verifier::external_body]
fn block_labels(block: &hcl::Block) -> (r: Vec<BlockLabel>)
    ensures
        r@.len() == block_content(*block).labels.len(),
        forall|i: int|
            0 <= i < r@.len() ==> (#[trigger] r@[i]).text() == block_content(*block).labels[i],
{
    block.labels().iter().map(|label| match label {
        hcl::BlockLabel::Identifier(ident) => BlockLabel::Identifier(ident.as_str().to_string()),
        hcl::BlockLabel::String(text) => BlockLabel::Text(text.clone()),
    }).collect()
}

/// `hcl::Block::body`: the block's nested body.
#[verifier::external_body]
fn block_body(block: &hcl::Block) -> (r: &hcl::Body)
    ensures
        body_content(*r) == block_content(*block).body,
{
    block.body()
}

/// `hcl::Attribute::key`: the attribute's key.
#[verifier::external_body]
fn attribute_key(attribute: &hcl::Attribute) -> (r: String)
    ensures
        r@ == attribute_content(*attribute).key,
{
    attribute.key().to_string()
}

/// `hcl::Attribute::expr`: the attribute's value expression.
#[verifier::external_body]
fn attribute_expr(attribute: &hcl::Attribute) -> (r: &hcl::Expression)
    ensures
        expression_content(*r) == attribute_content(*attribute).expr,
{
    attribute.expr()
}

/// The variants of `hcl::Expression`: a literal with its value (a number
/// as the text that its `Display` gives), an object with its keys (each as
/// the text that `ObjectKey`'s `Display` gives) and values in source
/// order, an array with its items, and `Other` for every other variant.
#[verifier::external_body]
fn expression_parts<'a>(expr: &'a hcl::Expression) -> (r: ExpressionParts<'a>)
    ensures
        r.parts_of(expression_content(*expr)),
{
    match expr {
        hcl::Expression::String(text) => ExpressionParts::Text(text.clone()),
        hcl::Expression::Number(number) => ExpressionParts::Number(number.to_string()),
        hcl::Expression::Bool(value) => ExpressionParts::Bool(*value),
        hcl::Expression::Object(object) => ExpressionParts::Object(
            object.iter().map(|(key, value)| (key.to_string(), value)).collect(),
        ),
        hcl::Expression::Array(items) => ExpressionParts::Array(items.iter().collect()),
        _ => ExpressionParts::Other,
    }
}

/// Rebuilds a parsed expression as a [`TfExpression`].
fn lower_expression(expr: &hcl::Expression) -> (r: TfExpression)
    ensures
        r.model() == expression_content(*expr),
    decreases expression_content(*expr),
{
    match expression_parts(expr) {
        ExpressionParts::Text(s) => TfExpression::Text(s),
        ExpressionParts::Number(s) => TfExpression::Number(s),
        ExpressionParts::Bool(b) => TfExpression::Bool(b),
        ExpressionParts::Object(entries) => {
            let mut out: Vec<ObjectEntry> = Vec::new();
            let mut i: usize = 0;
            let ghost whole = expression_content(*expr);
            while i < entries.len()
                invariant
                    i <= entries@.len(),
                    out@.len() == i,
                    whole == expression_content(*expr),
                    whole == ExpressionModel::Object(
                        Seq::new(
                            entries@.len(),
                            |k: int| (entries@[k].0@, expression_content(*entries@[k].1)),
                        ),
                    ),
                    forall|k: int|
                        0 <= k < i ==> (#[trigger] out@[k]).key@ == entries@[k].0@
                            && out@[k].value.model() == expression_content(*entries@[k].1),
                decreases entries@.len() - i,
            {
                proof {
                    let parts = whole->Object_0;
                    assert(parts[i as int].1 == expression_content(*entries@[i as int].1));
                    assert(decreases_to!(whole => parts));
                    assert(decreases_to!(parts => parts[i as int]));
                    assert(decreases_to!(parts[i as int] => parts[i as int].1));
                }
                let key = entries[i].0.clone();
                let value = lower_expression(entries[i].1);
                out.push(ObjectEntry { key, value });
                i = i + 1;
            }
            let r = TfExpression::Object(out);
            proof {
                assert(r.model()->Object_0 =~= whole->Object_0);
            }
            r
        },
        ExpressionParts::Array(items) => {
            let mut out: Vec<TfExpression> = Vec::new();
            let mut i: usize = 0;
            let ghost whole = expression_content(*expr);
            while i < items.len()
                invariant
                    i <= items@.len(),
                    out@.len() == i,
                    whole == expression_content(*expr),
                    whole == ExpressionModel::Array(
                        Seq::new(items@.len(), |k: int| expression_content(*items@[k])),
                    ),
                    forall|k: int|
                        0 <= k < i ==> (#[trigger] out@[k]).model() == expression_content(
                            *items@[k],
                        ),
                decreases items@.len() - i,
            {
                proof {
                    let parts = whole->Array_0;
                    assert(parts[i as int] == expression_content(*items@[i as int]));
                    assert(decreases_to!(whole => parts));
                    assert(decreases_to!(parts => parts[i as int]));
                }
                let value = lower_expression(items[i]);
                out.push(value);
                i = i + 1;
            }
            let r = TfExpression::Array(out);
            proof {
                assert(r.model()->Array_0 =~= whole->Array_0);
            }
            r
        },
        ExpressionParts::Other => TfExpression::Other,
    }
}

/// Rebuilds a parsed attribute as a [`TfAttribute`].
fn lower_attribute(attribute: &hcl::Attribute) -> (r: TfAttribute)
    ensures
        r.model() == attribute_content(*attribute),
{
    let key = attribute_key(attribute);
    let expr = lower_expression(attribute_expr(attribute));
    TfAttribute { key, expr }
}

/// Rebuilds a parsed block as a [`TfBlock`].
fn lower_block(block: &hcl::Block) -> (r: TfBlock)
    ensures
        r.model() == block_content(*block),
    decreases block_content(*block), 0nat,
{
    let identifier = block_identifier(block);
    let labels = block_labels(block);
    let body = lower_body(block_body(block));
    let r = TfBlock { identifier, labels, body };
    proof {
        assert(r.model().labels =~= block_content(*block).labels);
    }
    r
}

/// Rebuilds a parsed body as a [`TfBody`].
pub(crate) fn lower_body(body: &hcl::Body) -> (r: TfBody)
    ensures
        r.model() == body_content(*body),
    decreases body_content(*body), 1nat,
{
    let ghost whole = body_content(*body);
    let parsed_attributes = body_attributes(body);
    let mut attributes: Vec<TfAttribute> = Vec::new();
    let mut i: usize = 0;
    while i < parsed_attributes.len()
        invariant
            i <= parsed_attributes@.len(),
            attributes@.len() == i,
            whole == body_content(*body),
            parsed_attributes@.len() == whole.attributes.len(),
            forall|k: int|
                0 <= k < parsed_attributes@.len() ==> attribute_content(
                    *#[trigger] parsed_attributes@[k],
                ) == whole.attributes[k],
            forall|k: int| 0 <= k < i ==> (#[trigger] attributes@[k]).model() == whole.attributes[k],
        decreases parsed_attributes@.len() - i,
    {
        let attribute = lower_attribute(parsed_attributes[i]);
        attributes.push(attribute);
        i = i + 1;
    }
    let parsed_blocks = body_blocks(body);
    let mut blocks: Vec<TfBlock> = Vec::new();
    let mut j: usize = 0;
    while j < parsed_blocks.len()
        invariant
            j <= parsed_blocks@.len(),
            blocks@.len() == j,
            whole == body_content(*body),
            parsed_blocks@.len() == whole.blocks.len(),
            forall|k: int|
                0 <= k < parsed_blocks@.len() ==> block_content(*#[trigger] parsed_blocks@[k])
                    == whole.blocks[k],
            forall|k: int| 0 <= k < j ==> (#[trigger] blocks@[k]).model() == whole.blocks[k],
        decreases parsed_blocks@.len() - j,
    {
        proof {
            assert(block_content(*parsed_blocks@[j as int]) == whole.blocks[j as int]);
            assert(decreases_to!(whole => whole.blocks));
            assert(decreases_to!(whole.blocks => whole.blocks[j as int]));
        }
        let block = lower_block(parsed_blocks[j]);
        blocks.push(block);
        j = j + 1;
    }
    let r = TfBody { attributes, blocks };
    proof {
        assert(r.model().attributes =~= whole.attributes);
        assert(r.model().blocks =~= whole.blocks);
    }
    r
}

/// Parses a text: the document that the parser makes of it, or `None`
/// where the text is not valid HCL.
pub(crate) fn parse(text: &str) -> (r: Option<TfBody>)
    ensures
        match r {
            Some(body) => parsed_document(text@) == Some(body.model()),
            None => parsed_document(text@) is None,
        },
{
    match parse_document(text) {
        Some(document) => Some(lower_body(&document)),
        None => None,
    }
}

} // verus!

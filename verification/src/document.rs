//! The structural document that the rules inspect: nested blocks with
//! labels, attributes and their value expressions.

use vstd::prelude::*;

verus! {

/// The mathematical value of an [`TfExpression`].
pub enum ExpressionModel {
    Text(Seq<char>),
    Number(Seq<char>),
    Bool(bool),
    Object(Seq<(Seq<char>, ExpressionModel)>),
    Array(Seq<ExpressionModel>),
    Other,
}

/// The mathematical value of an [`TfAttribute`].
pub struct AttributeModel {
    pub key: Seq<char>,
    pub expr: ExpressionModel,
}

/// The mathematical value of a [`TfBlock`].
pub struct BlockModel {
    pub identifier: Seq<char>,
    pub labels: Seq<Seq<char>>,
    pub body: BodyModel,
}

/// The mathematical value of a [`TfBody`].
pub struct BodyModel {
    pub attributes: Seq<AttributeModel>,
    pub blocks: Seq<BlockModel>,
}

/// One entry of an object expression.
#[derive(Debug, PartialEq, Eq)]
pub struct ObjectEntry {
    pub key: String,
    pub value: TfExpression,
}

/// A value expression. Literals keep their value, a number as its
/// decimal text; objects and arrays keep their parts in source order;
/// every other form of expression is `Other`.
#[derive(Debug, PartialEq, Eq)]
pub enum TfExpression {
    Text(String),
    Number(String),
    Bool(bool),
    Object(Vec<ObjectEntry>),
    Array(Vec<TfExpression>),
    Other,
}

/// A key with its value expression.
#[derive(Debug, PartialEq, Eq)]
pub struct TfAttribute {
    pub key: String,
    pub expr: TfExpression,
}

/// A block label, written bare or quoted.
#[derive(Clone, Debug, PartialEq, Eq)]
pub enum BlockLabel {
    Identifier(String),
    Text(String),
}

/// A named block with its labels and nested body.
#[derive(Debug, PartialEq, Eq)]
pub struct TfBlock {
    pub identifier: String,
    pub labels: Vec<BlockLabel>,
    pub body: TfBody,
}

/// The attributes and the blocks of a document or of a block, each in
/// source order.
#[derive(Debug, PartialEq, Eq)]
pub struct TfBody {
    pub attributes: Vec<TfAttribute>,
    pub blocks: Vec<TfBlock>,
}

impl BlockLabel {
    /// The label's text.
    pub open spec fn text(self) -> Seq<char> {
        match self {
            BlockLabel::Identifier(s) => s@,
            BlockLabel::Text(s) => s@,
        }
    }
}

impl TfExpression {
    pub open spec fn model(self) -> ExpressionModel
        decreases self,
    {
        match self {
            TfExpression::Text(s) => ExpressionModel::Text(s@),
            TfExpression::Number(s) => ExpressionModel::Number(s@),
            TfExpression::Bool(b) => ExpressionModel::Bool(b),
            TfExpression::Object(entries) => ExpressionModel::Object(
                Seq::new(
                    entries@.len(),
                    |i: int|
                        if 0 <= i < entries@.len() {
                            (entries@[i].key@, entries@[i].value.model())
                        } else {
                            (Seq::empty(), ExpressionModel::Other)
                        },
                ),
            ),
            TfExpression::Array(items) => ExpressionModel::Array(
                Seq::new(
                    items@.len(),
                    |i: int|
                        if 0 <= i < items@.len() {
                            items@[i].model()
                        } else {
                            ExpressionModel::Other
                        },
                ),
            ),
            TfExpression::Other => ExpressionModel::Other,
        }
    }
}

impl TfAttribute {
    pub open spec fn model(self) -> AttributeModel {
        AttributeModel { key: self.key@, expr: self.expr.model() }
    }
}

impl TfBlock {
    pub open spec fn model(self) -> BlockModel
        decreases self,
    {
        BlockModel {
            identifier: self.identifier@,
            labels: Seq::new(self.labels@.len(), |i: int| self.labels@[i].text()),
            body: self.body.model(),
        }
    }
}

impl TfBody {
    pub open spec fn model(self) -> BodyModel
        decreases self,
    {
        BodyModel {
            attributes: Seq::new(self.attributes@.len(), |i: int| self.attributes@[i].model()),
            blocks: Seq::new(
                self.blocks@.len(),
                |i: int|
                    if 0 <= i < self.blocks@.len() {
                        self.blocks@[i].model()
                    } else {
                        arbitrary()
                    },
            ),
        }
    }
}

impl View for TfBody {
    type V = BodyModel;

    open spec fn view(&self) -> BodyModel {
        self.model()
    }
}

} // verus!

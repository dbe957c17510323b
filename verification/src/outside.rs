//! The types of the HCL parser and of the regular expression engine that
//! the library holds without looking inside them. What such a value holds
//! is known only through the functions that read it.

use vstd::prelude::*;

verus! {

/// `hcl::Body`: a parsed document, or the parsed body of a block.
#[verifier::external_type_specification]
#[verifier::external_body]
pub struct ExBody(hcl::Body);

/// `hcl::Block`: a parsed block.
#[verifier::external_type_specification]
#[verifier::external_body]
pub struct ExBlock(hcl::Block);

/// `hcl::Attribute`: a parsed attribute.
#[verifier::external_type_specification]
#[verifier::external_body]
pub struct ExAttribute(hcl::Attribute);

/// `hcl::Expression`: a parsed value expression.
#[verifier::external_type_specification]
#[verifier::external_body]
pub struct ExExpression(hcl::Expression);

/// `regex::Regex`: a compiled pattern.
#[verifier::external_type_specification]
#[verifier::external_body]
pub struct ExRegex(regex::Regex);

} // verus!

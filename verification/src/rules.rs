//! The rules of the Terraform ruleset.

pub mod no_hardcoded_credentials;
pub mod no_deprecated_interpolation;
pub mod output_description_required;
pub mod variable_description_required;
pub mod require_provider_version;
pub mod resource_naming_convention;

use terraform_rules::diagnostic::Severity;
use terraform_rules::document::{BlockLabel, TfAttribute, TfBlock, TfBody, TfExpression};
use terraform_rules::position::{Position, Range};
use terraform_rules::utils::{trim_quotes, TerraformUtils};

fn span(line: usize, from: usize, to: usize) -> Range {
    Range {
        start: Position { line, character: from },
        end: Position { line, character: to },
    }
}

fn labelled(identifier: &str, labels: Vec<BlockLabel>) -> TfBlock {
    TfBlock {
        identifier: identifier.to_string(),
        labels,
        body: TfBody { attributes: vec![], blocks: vec![] },
    }
}

fn with_attributes(keys: &[&str]) -> TfBlock {
    TfBlock {
        identifier: "variable".to_string(),
        labels: vec![BlockLabel::Text("x".to_string())],
        body: TfBody {
            attributes: keys
                .iter()
                .map(|key| TfAttribute { key: key.to_string(), expr: TfExpression::Other })
                .collect(),
            blocks: vec![],
        },
    }
}

#[test]
fn a_label_gives_its_text() {
    assert_eq!(
        TerraformUtils::block_label_to_string(&BlockLabel::Text("my_var".to_string())),
        "my_var"
    );
    assert_eq!(
        TerraformUtils::block_label_to_string(&BlockLabel::Identifier("bare".to_string())),
        "bare"
    );
    assert_eq!(TerraformUtils::block_label_to_string(&BlockLabel::Text(String::new())), "");
}

#[test]
fn debug_to_string_drops_the_outer_quotes() {
    assert_eq!(TerraformUtils::debug_to_string(&"version"), "version");
    assert_eq!(TerraformUtils::debug_to_string(&String::from("a b")), "a b");
    assert_eq!(TerraformUtils::debug_to_string(&5), "5");
    assert_eq!(TerraformUtils::debug_to_string(&Some(1)), "Some(1)");
    assert_eq!(TerraformUtils::debug_to_string(&""), "");
}

#[test]
fn debug_to_string_keeps_what_debug_escapes() {
    assert_eq!(TerraformUtils::debug_to_string(&"\"q\""), "\\\"q\\");
    assert_eq!(TerraformUtils::debug_to_string(&"a\nb"), "a\\nb");
}

#[test]
fn trim_quotes_drops_quotes_at_both_ends() {
    assert_eq!(trim_quotes("\"abc\""), "abc");
    assert_eq!(trim_quotes("\"\"abc\""), "abc");
    assert_eq!(trim_quotes("abc\"\"\""), "abc");
    assert_eq!(trim_quotes("a\"b"), "a\"b");
    assert_eq!(trim_quotes("abc"), "abc");
    assert_eq!(trim_quotes("\"é日\""), "é日");
}

#[test]
fn trim_quotes_of_quotes_alone_is_empty() {
    assert_eq!(trim_quotes(""), "");
    assert_eq!(trim_quotes("\""), "");
    assert_eq!(trim_quotes("\"\"\""), "");
}

#[test]
fn trim_quotes_agrees_with_trim_matches() {
    for text in ["", "\"", "\"a", "a\"", "\"a\"b\"", "'a'", "\" \"", "\"\"x\"\"y\"\""] {
        assert_eq!(trim_quotes(text), text.trim_matches('"'));
    }
}

#[test]
fn resources_and_data_are_named_by_their_second_label() {
    let labels = vec![
        BlockLabel::Text("aws_instance".to_string()),
        BlockLabel::Text("my_instance".to_string()),
        BlockLabel::Text("extra".to_string()),
    ];
    let block = labelled("resource", labels);
    assert_eq!(
        TerraformUtils::get_block_name(&block, "resource"),
        Some("my_instance".to_string())
    );
    assert_eq!(TerraformUtils::get_block_name(&block, "data"), Some("my_instance".to_string()));
}

#[test]
fn other_named_kinds_are_named_by_their_first_label() {
    let labels = vec![
        BlockLabel::Identifier("first".to_string()),
        BlockLabel::Text("second".to_string()),
    ];
    let block = labelled("variable", labels);
    for kind in ["variable", "output", "locals"] {
        assert_eq!(TerraformUtils::get_block_name(&block, kind), Some("first".to_string()));
    }
}

#[test]
fn the_kind_asked_for_decides_not_the_identifier() {
    let block = labelled(
        "variable",
        vec![BlockLabel::Text("a".to_string()), BlockLabel::Text("b".to_string())],
    );
    assert_eq!(TerraformUtils::get_block_name(&block, "resource"), Some("b".to_string()));
    assert_eq!(TerraformUtils::get_block_name(&block, "variable"), Some("a".to_string()));
}

#[test]
fn a_missing_label_or_another_kind_gives_no_name() {
    let one = labelled("resource", vec![BlockLabel::Text("aws_instance".to_string())]);
    assert_eq!(TerraformUtils::get_block_name(&one, "resource"), None);
    assert_eq!(TerraformUtils::get_block_name(&one, "data"), None);
    let none = labelled("variable", vec![]);
    assert_eq!(TerraformUtils::get_block_name(&none, "variable"), None);
    assert_eq!(TerraformUtils::get_block_name(&one, "module"), None);
    assert_eq!(TerraformUtils::get_block_name(&one, "Resource"), None);
    assert_eq!(TerraformUtils::get_block_name(&one, ""), None);
}

#[test]
fn a_description_is_found_among_the_attributes() {
    assert!(TerraformUtils::has_description_attribute(&with_attributes(&["description"])));
    assert!(TerraformUtils::has_description_attribute(&with_attributes(&[
        "type",
        "default",
        "description"
    ])));
    assert!(TerraformUtils::has_description_attribute(&with_attributes(&[
        "description",
        "description"
    ])));
}

#[test]
fn other_keys_are_no_description() {
    assert!(!TerraformUtils::has_description_attribute(&with_attributes(&[])));
    assert!(!TerraformUtils::has_description_attribute(&with_attributes(&[
        "type",
        "Description",
        "descriptions",
        "desc"
    ])));
}

#[test]
fn capitalize_first_raises_the_first_character() {
    assert_eq!(TerraformUtils::capitalize_first("variable"), "Variable");
    assert_eq!(TerraformUtils::capitalize_first("output"), "Output");
    assert_eq!(TerraformUtils::capitalize_first("Already"), "Already");
    assert_eq!(TerraformUtils::capitalize_first("x"), "X");
    assert_eq!(TerraformUtils::capitalize_first("1abc"), "1abc");
    assert_eq!(TerraformUtils::capitalize_first("éa"), "Éa");
}

#[test]
fn capitalize_first_of_the_empty_text_is_empty() {
    assert_eq!(TerraformUtils::capitalize_first(""), "");
}

#[test]
fn capitalize_first_may_give_several_characters() {
    assert_eq!(TerraformUtils::capitalize_first("ßeta"), "SSeta");
}

#[test]
fn the_missing_description_diagnostic_spans_the_header() {
    let text = "# head\nvariable \"region\" {\n}\n";
    let d = TerraformUtils::create_missing_description_diagnostic(
        "variable-description-required",
        "variable",
        "region",
        text,
    );
    assert_eq!(d.rule_id, "variable-description-required");
    assert_eq!(d.message, "Variable 'region' should have a description");
    assert_eq!(d.severity, Severity::Warn);
    assert_eq!(d.range, span(1, 0, 17));
    assert_eq!(d.code.as_deref(), Some("MISSING_DESCRIPTION"));
    assert_eq!(d.suggest, None);
    assert_eq!(
        d.docs_url.as_deref(),
        Some("https://forseti.dev/rules/terraform/variable-description-required")
    );
}

#[test]
fn the_missing_description_diagnostic_falls_back_to_the_start() {
    let d = TerraformUtils::create_missing_description_diagnostic("r", "output", "o", "");
    assert_eq!(d.range, span(0, 0, 0));
    assert_eq!(d.message, "Output 'o' should have a description");
    assert_eq!(d.docs_url.as_deref(), Some("https://forseti.dev/rules/terraform/r"));
    let e = TerraformUtils::create_missing_description_diagnostic("r", "output", "o", "abcdefghijklmno");
    assert_eq!(e.range, span(0, 0, 10));
}

#[test]
fn the_naming_diagnostic_prefers_the_quoted_name() {
    let text = "# web is here\nresource \"aws_instance\" \"web\" {\n}\n";
    let d = TerraformUtils::create_naming_convention_diagnostic("resource", "web", text);
    assert_eq!(d.rule_id, "resource-naming-convention");
    assert_eq!(d.message, "resource name 'web' should follow snake_case convention");
    assert_eq!(d.severity, Severity::Warn);
    assert_eq!(d.range, span(1, 25, 28));
    assert_eq!(d.code.as_deref(), Some("NAMING_CONVENTION"));
    assert_eq!(d.suggest, None);
    assert_eq!(
        d.docs_url.as_deref(),
        Some("https://forseti.dev/rules/terraform/resource-naming-convention")
    );
}

#[test]
fn the_naming_diagnostic_falls_back_to_the_bare_name_then_the_start() {
    let bare = TerraformUtils::create_naming_convention_diagnostic("variable", "abc", "x abc y");
    assert_eq!(bare.range, span(0, 2, 5));
    let missing = TerraformUtils::create_naming_convention_diagnostic("variable", "zzz", "x abc y");
    assert_eq!(missing.range, span(0, 0, 3));
    let empty = TerraformUtils::create_naming_convention_diagnostic("variable", "", "a \"\" b");
    assert_eq!(empty.range, span(0, 3, 3));
}

#[test]
fn the_naming_diagnostic_counts_scalars() {
    let d = TerraformUtils::create_naming_convention_diagnostic("output", "é日", "# é\noutput \"é日\" {}");
    assert_eq!(d.range, span(1, 8, 10));
    assert_eq!(d.message, "output name 'é日' should follow snake_case convention");
}

#[test]
fn the_provider_diagnostic_spans_the_name() {
    let text = "terraform {\n  required_providers {\n    aws = {}\n  }\n}\n";
    let d = TerraformUtils::create_provider_version_diagnostic("aws", text);
    assert_eq!(d.rule_id, "require-provider-version");
    assert_eq!(d.message, "Provider 'aws' should specify a version constraint");
    assert_eq!(d.severity, Severity::Warn);
    assert_eq!(d.range, span(2, 4, 7));
    assert_eq!(d.code.as_deref(), Some("PROVIDER_VERSION"));
    assert_eq!(d.suggest, None);
    assert_eq!(
        d.docs_url.as_deref(),
        Some("https://forseti.dev/rules/terraform/require-provider-version")
    );
}

#[test]
fn the_provider_diagnostic_needs_the_equals_sign_after_one_space() {
    let d = TerraformUtils::create_provider_version_diagnostic("aws", "aws  = {}\naws={}\n");
    assert_eq!(d.range, span(0, 0, 3));
    let e = TerraformUtils::create_provider_version_diagnostic("aws", "xaws = {}");
    assert_eq!(e.range, span(0, 1, 4));
}

use terraform_rules::diagnostic::{Diagnostic, RuleContext, RuleLevel, Severity};
use terraform_rules::position::{Position, Range};
use terraform_rules::rules::no_deprecated_interpolation::NoDeprecatedInterpolationRule;
use terraform_rules::rules::no_hardcoded_credentials::NoHardcodedCredentialsRule;

fn span(line: usize, from: usize, to: usize) -> Range {
    Range {
        start: Position { line, character: from },
        end: Position { line, character: to },
    }
}

fn credentials(text: &str) -> Vec<Diagnostic> {
    let mut ctx = RuleContext::new(text);
    NoHardcodedCredentialsRule.check(&mut ctx);
    ctx.diagnostics
}

fn interpolations(text: &str) -> Vec<Diagnostic> {
    let mut ctx = RuleContext::new(text);
    NoDeprecatedInterpolationRule.check(&mut ctx);
    ctx.diagnostics
}

#[test]
fn a_fresh_context_has_nothing_reported() {
    let ctx = RuleContext::new("password = \"x\"");
    assert_eq!(ctx.text, "password = \"x\"");
    assert!(ctx.diagnostics.is_empty());
}

#[test]
fn report_appends_in_order() {
    let mut ctx = RuleContext::new("");
    let make = |id: &str| Diagnostic {
        rule_id: id.to_string(),
        message: String::new(),
        severity: Severity::Info,
        range: span(0, 0, 0),
        code: None,
        suggest: None,
        docs_url: None,
    };
    ctx.report(make("first"));
    ctx.report(make("second"));
    ctx.report(make("first"));
    let ids: Vec<&str> = ctx.diagnostics.iter().map(|d| d.rule_id.as_str()).collect();
    assert_eq!(ids, vec!["first", "second", "first"]);
}

#[test]
fn levels_have_their_names() {
    assert_eq!(RuleLevel::Error.as_str(), "error");
    assert_eq!(RuleLevel::Warn.as_str(), "warn");
    assert_eq!(RuleLevel::Off.as_str(), "off");
}

#[test]
fn severities_have_their_names() {
    assert_eq!(Severity::Error.as_str(), "error");
    assert_eq!(Severity::Warn.as_str(), "warn");
    assert_eq!(Severity::Info.as_str(), "info");
}

#[test]
fn a_hardcoded_password_is_reported() {
    let found = credentials("password = \"sup3rSecret!\"");
    assert_eq!(
        found,
        vec![Diagnostic {
            rule_id: "no-hardcoded-credentials".to_string(),
            message: "Hardcoded password detected".to_string(),
            severity: Severity::Error,
            range: span(0, 0, 25),
            code: Some("CREDENTIALS".to_string()),
            suggest: None,
            docs_url: Some(
                "https://forseti.dev/rules/terraform/no-hardcoded-credentials".to_string()
            ),
        }]
    );
}

#[test]
fn the_range_covers_the_match_only() {
    let found = credentials("  foo { pwd='x' } # tail");
    assert_eq!(found.len(), 1);
    assert_eq!(found[0].range, span(0, 8, 15));
}

#[test]
fn credential_patterns_ignore_case() {
    let found = credentials("PassWord = 'abc'");
    assert_eq!(found.len(), 1);
    assert_eq!(found[0].message, "Hardcoded password detected");
    assert_eq!(found[0].range, span(0, 0, 16));
}

#[test]
fn an_empty_password_is_not_reported() {
    assert!(credentials("password = \"\"").is_empty());
}

#[test]
fn a_short_secret_is_not_reported() {
    assert!(credentials("token = \"1234567\"").is_empty());
    let found = credentials("token = \"12345678\"");
    assert_eq!(found.len(), 1);
    assert_eq!(found[0].message, "Hardcoded secret/token/key detected");
    assert_eq!(found[0].range, span(0, 0, 18));
}

#[test]
fn only_the_first_match_of_a_pattern_on_a_line_is_reported() {
    let found = credentials("password = \"a\" password = \"b\"");
    assert_eq!(found.len(), 1);
    assert_eq!(found[0].range, span(0, 0, 14));
}

#[test]
fn several_patterns_may_fire_on_one_line() {
    // Twenty-four letters, put together here.
    let text = format!("api_key = \"{}\"", "AbCdEfGh".repeat(3));
    let found = credentials(&text);
    let messages: Vec<&str> = found.iter().map(|d| d.message.as_str()).collect();
    assert_eq!(
        messages,
        vec!["Hardcoded secret/token/key detected", "Hardcoded API key detected"]
    );
    assert_eq!(found[0].range, span(0, 4, 36));
    assert_eq!(found[1].range, span(0, 0, 36));
}

#[test]
fn an_access_key_is_reported() {
    // Twenty upper-case letters and digits, put together here.
    let text = format!("access_key = \"{}\"", "A1B2".repeat(5));
    let found = credentials(&text);
    let messages: Vec<&str> = found.iter().map(|d| d.message.as_str()).collect();
    assert_eq!(
        messages,
        vec!["Hardcoded secret/token/key detected", "Hardcoded access key detected"]
    );
    assert_eq!(found[1].range, span(0, 0, 35));
}

#[test]
fn a_private_key_is_reported_up_to_its_header() {
    let text = format!("private_key = \"{}BEGIN RSA PRIVATE KEY{}", "-".repeat(5), "-".repeat(5));
    let found = credentials(&text);
    assert_eq!(found.len(), 1);
    assert_eq!(found[0].message, "Hardcoded private key detected");
    assert_eq!(found[0].range, span(0, 0, 25));
}

#[test]
fn findings_come_pattern_by_pattern_then_line_by_line() {
    let text = "token = \"abcdefgh\"\npassword = \"p\"\ntoken = \"ijklmnop\"\npwd = \"q\"";
    let found = credentials(text);
    let seen: Vec<(&str, usize)> =
        found.iter().map(|d| (d.message.as_str(), d.range.start.line)).collect();
    assert_eq!(
        seen,
        vec![
            ("Hardcoded password detected", 1),
            ("Hardcoded password detected", 3),
            ("Hardcoded secret/token/key detected", 0),
            ("Hardcoded secret/token/key detected", 2),
        ]
    );
}

#[test]
fn credentials_on_later_lines_have_their_line() {
    let found = credentials("x = 1\n\n  password = \"abc\"\n");
    assert_eq!(found.len(), 1);
    assert_eq!(found[0].range, span(2, 2, 18));
}

#[test]
fn credentials_after_carriage_returns_span_the_match() {
    let found = credentials("a = 1\r\nb = 2\r\npwd = 'x'\r\n");
    assert_eq!(found.len(), 1);
    assert_eq!(found[0].range, span(2, 0, 9));
}

#[test]
fn credentials_after_wide_characters_count_scalars() {
    let found = credentials("# é日\n\"日\" pwd = 'é'");
    assert_eq!(found.len(), 1);
    assert_eq!(found[0].range, span(1, 4, 13));
}

#[test]
fn credentials_are_found_in_text_that_does_not_parse() {
    let found = credentials("resource \"a\" \"b\" {\n  password = \"hunter2\"\n");
    assert_eq!(found.len(), 1);
    assert_eq!(found[0].severity, Severity::Error);
    assert_eq!(found[0].code.as_deref(), Some("CREDENTIALS"));
    assert_eq!(found[0].range, span(1, 2, 22));
}

#[test]
fn text_without_credentials_gives_nothing() {
    assert!(credentials("").is_empty());
    assert!(credentials("variable \"x\" {}\n").is_empty());
    assert!(credentials("password = var.secret").is_empty());
}

#[test]
fn a_plain_interpolation_is_reported() {
    let found = interpolations("value = \"${var.name}\"");
    assert_eq!(
        found,
        vec![Diagnostic {
            rule_id: "no-deprecated-interpolation".to_string(),
            message:
                "Deprecated interpolation syntax found. Use direct variable reference instead"
                    .to_string(),
            severity: Severity::Warn,
            range: span(0, 8, 21),
            code: Some("DEPRECATED_INTERPOLATION".to_string()),
            suggest: None,
            docs_url: Some(
                "https://forseti.dev/rules/terraform/no-deprecated-interpolation".to_string()
            ),
        }]
    );
}

#[test]
fn an_interpolated_expression_is_not_reported() {
    assert!(interpolations("value = \"${var.name + 1}\"").is_empty());
    assert!(interpolations("value = \"${a*b}\"").is_empty());
    assert!(interpolations("value = \"${a/b}\"").is_empty());
    assert!(interpolations("value = \"${a+b}\"").is_empty());
    assert!(interpolations("value = \"${upper(var.name)}\"").is_empty());
}

#[test]
fn a_space_anywhere_in_the_string_suppresses_the_finding() {
    assert!(interpolations("value = \"prefix ${var.name}\"").is_empty());
    let found = interpolations("value = \"prefix-${var.name}\"");
    assert_eq!(found.len(), 1);
    assert_eq!(found[0].range, span(0, 8, 28));
}

#[test]
fn every_interpolation_on_a_line_is_reported() {
    let found = interpolations("a = \"${x}\" b = \"${y}\"");
    assert_eq!(found.len(), 2);
    assert_eq!(found[0].range, span(0, 4, 10));
    assert_eq!(found[1].range, span(0, 15, 21));
}

#[test]
fn a_suppressed_match_does_not_hide_the_next() {
    let found = interpolations("a = \"${x + 1}\" b = \"${y}\"");
    assert_eq!(found.len(), 1);
    assert_eq!(found[0].range, span(0, 19, 25));
}

#[test]
fn interpolations_on_later_lines_have_their_line() {
    let found = interpolations("a = 1\r\n\r\n  b = \"${var.b}\"\r\nc = \"${var.c}\"");
    assert_eq!(found.len(), 2);
    assert_eq!(found[0].range, span(2, 6, 16));
    assert_eq!(found[1].range, span(3, 4, 14));
}

#[test]
fn interpolations_are_found_in_text_that_does_not_parse() {
    let found = interpolations("resource \"a\" {{{\n  v = \"${var.v}\"\n");
    assert_eq!(found.len(), 1);
    assert_eq!(found[0].severity, Severity::Warn);
    assert_eq!(found[0].range, span(1, 6, 16));
}

#[test]
fn strings_without_interpolation_give_nothing() {
    assert!(interpolations("").is_empty());
    assert!(interpolations("a = \"plain\"").is_empty());
    assert!(interpolations("a = ${var.x}").is_empty());
    assert!(interpolations("a = \"${}\"").is_empty());
}

#[test]
fn text_rules_have_their_metadata() {
    assert_eq!(NoHardcodedCredentialsRule.id(), "no-hardcoded-credentials");
    assert_eq!(NoDeprecatedInterpolationRule.id(), "no-deprecated-interpolation");
    assert_eq!(
        NoHardcodedCredentialsRule.description(),
        "Detects hardcoded credentials such as passwords, API keys, tokens, and secrets in Terraform files"
    );
    assert_eq!(
        NoDeprecatedInterpolationRule.description(),
        "Flags deprecated interpolation syntax in Terraform (e.g., \"${var.name}\") in favor of modern expressions"
    );
    assert_eq!(NoHardcodedCredentialsRule.default_config(), RuleLevel::Error);
    assert_eq!(NoDeprecatedInterpolationRule.default_config(), RuleLevel::Error);
}

#[test]
fn rules_append_to_what_was_reported() {
    let mut ctx = RuleContext::new("password = \"abc\"\nv = \"${var.v}\"");
    NoDeprecatedInterpolationRule.check(&mut ctx);
    NoHardcodedCredentialsRule.check(&mut ctx);
    NoDeprecatedInterpolationRule.check(&mut ctx);
    let ids: Vec<&str> = ctx.diagnostics.iter().map(|d| d.rule_id.as_str()).collect();
    assert_eq!(
        ids,
        vec![
            "no-deprecated-interpolation",
            "no-hardcoded-credentials",
            "no-deprecated-interpolation"
        ]
    );
    assert_eq!(ctx.diagnostics[0], ctx.diagnostics[2]);
}

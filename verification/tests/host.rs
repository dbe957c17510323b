use terraform_rules::diagnostic::{Diagnostic, RuleContext, RuleLevel, Severity};
use terraform_rules::host::{
    describe_file, get_capabilities, infer_language, kind_for_extension, language_for_extension,
    local_path, tally, BatchCounts, FileFacts, FileKind,
};
use terraform_rules::position::{Position, Range};
use terraform_rules::ruleset::{create_terraform_ruleset, Ruleset, TerraformRule};

fn span(line: usize, from: usize, to: usize) -> Range {
    Range {
        start: Position { line, character: from },
        end: Position { line, character: to },
    }
}

fn ids(diagnostics: &[Diagnostic]) -> Vec<&str> {
    diagnostics.iter().map(|d| d.rule_id.as_str()).collect()
}

#[test]
fn the_ruleset_holds_its_rules_in_order() {
    let ruleset = create_terraform_ruleset();
    assert_eq!(ruleset.id, "terraform");
    assert_eq!(
        ruleset.rules,
        vec![
            TerraformRule::NoHardcodedCredentials,
            TerraformRule::RequireProviderVersion,
            TerraformRule::NoDeprecatedInterpolation,
            TerraformRule::ResourceNamingConvention,
            TerraformRule::VariableDescriptionRequired,
            TerraformRule::OutputDescriptionRequired,
        ]
    );
}

#[test]
fn rules_are_known_by_their_identifiers() {
    let ruleset = create_terraform_ruleset();
    let names: Vec<&str> = ruleset.rules.iter().map(|r| r.id()).collect();
    assert_eq!(
        names,
        vec![
            "no-hardcoded-credentials",
            "require-provider-version",
            "no-deprecated-interpolation",
            "resource-naming-convention",
            "variable-description-required",
            "output-description-required",
        ]
    );
    for rule in &ruleset.rules {
        assert!(!rule.description().is_empty());
        assert_eq!(rule.default_config(), RuleLevel::Error);
    }
    assert_eq!(
        TerraformRule::VariableDescriptionRequired.description(),
        "Requires that all Terraform variable blocks include a description for better documentation"
    );
}

#[test]
fn a_ruleset_is_built_rule_by_rule() {
    let empty = Ruleset::new("mine");
    assert_eq!(empty.id, "mine");
    assert!(empty.rules.is_empty());
    let two = empty
        .with_rule(TerraformRule::OutputDescriptionRequired)
        .with_rule(TerraformRule::NoHardcodedCredentials);
    assert_eq!(
        two.rules,
        vec![TerraformRule::OutputDescriptionRequired, TerraformRule::NoHardcodedCredentials]
    );
    assert_eq!(two.id, "mine");
}

#[test]
fn the_ruleset_reports_rule_by_rule() {
    let text = "variable \"x\" {\n  default = \"${var.y}\"\n}\npassword = \"hunter2\"\n";
    let found = create_terraform_ruleset().run(text);
    assert_eq!(
        ids(&found),
        vec![
            "no-hardcoded-credentials",
            "no-deprecated-interpolation",
            "variable-description-required",
        ]
    );
    assert_eq!(found[0].range, span(3, 0, 20));
    assert_eq!(found[0].severity, Severity::Error);
    assert_eq!(found[1].range, span(1, 12, 22));
    assert_eq!(found[1].severity, Severity::Warn);
    assert_eq!(found[2].range, span(0, 0, 12));
    assert_eq!(found[2].severity, Severity::Warn);
}

#[test]
fn the_ruleset_runs_in_the_order_it_was_built() {
    let text = "variable \"x\" {\n}\npassword = \"hunter2\"\n";
    let ruleset = Ruleset::new("r")
        .with_rule(TerraformRule::VariableDescriptionRequired)
        .with_rule(TerraformRule::NoHardcodedCredentials)
        .with_rule(TerraformRule::VariableDescriptionRequired);
    assert_eq!(
        ids(&ruleset.run(text)),
        vec![
            "variable-description-required",
            "no-hardcoded-credentials",
            "variable-description-required"
        ]
    );
    assert!(Ruleset::new("none").run(text).is_empty());
}

#[test]
fn the_ruleset_gives_the_same_diagnostics_each_time() {
    let text = "resource \"a\" \"B\" {\n  secret = \"0123456789\"\n  v = \"${var.v}\"\n}\noutput \"o\" {\n}\n";
    let ruleset = create_terraform_ruleset();
    let first = ruleset.run(text);
    let second = ruleset.run(text);
    assert_eq!(
        ids(&first),
        vec![
            "no-hardcoded-credentials",
            "no-deprecated-interpolation",
            "resource-naming-convention",
            "output-description-required",
        ]
    );
    assert_eq!(first, second);
}

#[test]
fn text_that_does_not_parse_still_gets_the_text_rules() {
    let text = "variable \"X\" {\n  password = \"hunter2\"\n  v = \"${var.v}\"\n";
    let found = create_terraform_ruleset().run(text);
    assert_eq!(ids(&found), vec!["no-hardcoded-credentials", "no-deprecated-interpolation"]);
    assert_eq!(found[0].range, span(1, 2, 22));
    assert_eq!(found[1].range, span(2, 6, 16));
}

#[test]
fn a_rule_of_the_ruleset_runs_alone() {
    let mut ctx = RuleContext::new("output \"o\" {\n}\n");
    TerraformRule::OutputDescriptionRequired.check(&mut ctx);
    TerraformRule::VariableDescriptionRequired.check(&mut ctx);
    TerraformRule::RequireProviderVersion.check(&mut ctx);
    TerraformRule::ResourceNamingConvention.check(&mut ctx);
    TerraformRule::NoDeprecatedInterpolation.check(&mut ctx);
    TerraformRule::NoHardcodedCredentials.check(&mut ctx);
    assert_eq!(ids(&ctx.diagnostics), vec!["output-description-required"]);
}

#[test]
fn the_ruleset_states_its_capabilities() {
    let caps = get_capabilities();
    assert_eq!(caps.ruleset_id, "terraform");
    assert_eq!(caps.version, "0.1.0");
    assert_eq!(caps.file_patterns, vec!["*.tf".to_string(), "*.tfvars".to_string()]);
    assert_eq!(caps.max_file_size, Some(5 * 1024 * 1024));
    assert_eq!(caps.annotation_prefixes, vec!["#".to_string(), "//".to_string()]);
    assert_eq!(
        caps.default_config,
        vec![
            ("no-hardcoded-credentials".to_string(), RuleLevel::Error),
            ("require-provider-version".to_string(), RuleLevel::Error),
            ("no-deprecated-interpolation".to_string(), RuleLevel::Error),
            ("resource-naming-convention".to_string(), RuleLevel::Error),
            ("variable-description-required".to_string(), RuleLevel::Error),
            ("output-description-required".to_string(), RuleLevel::Error),
        ]
    );
}

#[test]
fn the_language_follows_the_extension() {
    assert_eq!(infer_language("main.tf"), Some("terraform".to_string()));
    assert_eq!(infer_language("prod.tfvars"), Some("terraform-vars".to_string()));
    assert_eq!(infer_language("file:///repo/main.tf"), Some("terraform".to_string()));
    assert_eq!(
        infer_language("file:///repo/env/prod.auto.tfvars"),
        Some("terraform-vars".to_string())
    );
    assert_eq!(infer_language("/abs/path/a.b.tf"), Some("terraform".to_string()));
}

#[test]
fn other_files_have_no_language() {
    assert_eq!(infer_language("main.txt"), None);
    assert_eq!(infer_language("main.TF"), None);
    assert_eq!(infer_language("main.tf.bak"), None);
    assert_eq!(infer_language("main"), None);
    assert_eq!(infer_language(".tf"), None);
    assert_eq!(infer_language("dir.tf/file"), None);
    assert_eq!(infer_language(""), None);
    assert_eq!(infer_language("file://"), None);
    assert_eq!(infer_language("tf"), None);
}

#[test]
fn extensions_map_to_languages_and_kinds() {
    assert_eq!(language_for_extension(Some("tf")), Some("terraform".to_string()));
    assert_eq!(language_for_extension(Some("tfvars")), Some("terraform-vars".to_string()));
    assert_eq!(language_for_extension(Some("json")), None);
    assert_eq!(language_for_extension(Some("")), None);
    assert_eq!(language_for_extension(None), None);
    assert_eq!(kind_for_extension("tf"), Some(FileKind::Configuration));
    assert_eq!(kind_for_extension("tfvars"), Some(FileKind::Variables));
    assert_eq!(kind_for_extension("hcl"), None);
    assert_eq!(kind_for_extension("Tf"), None);
}

#[test]
fn a_file_locator_gives_its_path() {
    assert_eq!(local_path("file:///repo/main.tf"), Some("/repo/main.tf"));
    assert_eq!(local_path("file://"), Some(""));
    assert_eq!(local_path("file://é.tf"), Some("é.tf"));
}

#[test]
fn other_locators_give_no_path() {
    assert_eq!(local_path("/repo/main.tf"), None);
    assert_eq!(local_path("https://host/main.tf"), None);
    assert_eq!(local_path("file:/main.tf"), None);
    assert_eq!(local_path("File:///main.tf"), None);
    assert_eq!(local_path(" file:///main.tf"), None);
    assert_eq!(local_path(""), None);
}

#[test]
fn a_local_configuration_is_described() {
    assert_eq!(
        describe_file("file:///repo/main.tf"),
        FileFacts {
            uri: "file:///repo/main.tf".to_string(),
            local: true,
            extension: Some("tf".to_string()),
            kind: Some(FileKind::Configuration),
            generated: false,
            language: Some("terraform".to_string()),
        }
    );
}

#[test]
fn a_file_under_the_terraform_directory_is_generated() {
    let facts = describe_file("file:///repo/.terraform/modules/m/vars.tfvars");
    assert!(facts.local);
    assert!(facts.generated);
    assert_eq!(facts.extension.as_deref(), Some("tfvars"));
    assert_eq!(facts.kind, Some(FileKind::Variables));
    assert_eq!(facts.language.as_deref(), Some("terraform-vars"));
    assert!(!describe_file("file:///repo/.terraform").generated);
    assert!(!describe_file("file:///repo/x.terraform/a.tf").generated);
}

#[test]
fn a_local_file_of_another_kind_keeps_its_extension() {
    assert_eq!(
        describe_file("file:///repo/README.md"),
        FileFacts {
            uri: "file:///repo/README.md".to_string(),
            local: true,
            extension: Some("md".to_string()),
            kind: None,
            generated: false,
            language: None,
        }
    );
    assert_eq!(describe_file("file:///repo/Makefile").extension, None);
}

#[test]
fn a_locator_that_is_not_local_has_only_a_language() {
    assert_eq!(
        describe_file("https://host/.terraform/x.tf"),
        FileFacts {
            uri: "https://host/.terraform/x.tf".to_string(),
            local: false,
            extension: None,
            kind: None,
            generated: false,
            language: Some("terraform".to_string()),
        }
    );
}

#[test]
fn a_batch_is_counted_by_kind() {
    let files: Vec<FileFacts> = [
        "file:///a/main.tf",
        "file:///a/vars.tfvars",
        "file:///a/README.md",
        "file:///a/outputs.tf",
        "relative.tf",
        "file:///a/.terraform/x.tf",
    ]
    .iter()
    .map(|uri| describe_file(uri))
    .collect();
    assert_eq!(tally(&files), BatchCounts { total_files: 6, tf_files: 3, tfvars_files: 1 });
}

#[test]
fn the_empty_batch_counts_nothing() {
    assert_eq!(tally(&Vec::new()), BatchCounts { total_files: 0, tf_files: 0, tfvars_files: 0 });
}

#[test]
fn every_range_starts_no_later_than_it_ends() {
    let text = "# é日\nresource \"a\" \"Bad\" {\n  password = \"hunter2\"\n  v = \"${var.v}\"\n}\nvariable \"x\" {\n}\noutput \"日\" {\n}\nterraform {\n  required_providers {\n    aws = {\n    }\n    missing = 1\n  }\n}\n";
    let found = create_terraform_ruleset().run(text);
    assert_eq!(found.len(), 8);
    for d in &found {
        let (start, end) = (d.range.start, d.range.end);
        assert!(
            start.line < end.line || (start.line == end.line && start.character <= end.character)
        );
    }
}

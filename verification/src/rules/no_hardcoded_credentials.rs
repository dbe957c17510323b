//! Detection of credentials written into the configuration text.
//!
//! The rule reads the text line by line and does not need it to parse. For
//! each pattern it reports the first match on every line; further matches
//! of the same pattern on that line are not reported.

use crate::diagnostic::{
    all_well_ranged, lemma_well_ranged_concat, Diagnostic, DiagnosticModel, RuleContext, RuleLevel,
    Severity,
};
use crate::pattern::{compile, find_first, first_match, pattern_compiles, regex_source};
use crate::position::{lemma_position_ordered, position_at, position_in, Range};
use crate::text::{line_spans, line_text, lines, slice_text, span_in, spans_view};
use vstd::prelude::*;
use vstd::string::*;
use vstd::utf8::*;

verus! {

#[derive(Clone, Copy, Debug, PartialEq, Eq)]
pub struct NoHardcodedCredentialsRule;

/// The credential families, each with the pattern that finds it and the
/// message that reports it, in the order in which they are searched.
pub open spec fn credential_patterns() -> Seq<(Seq<char>, Seq<char>)> {
    seq![
        (
            r#"(?i)(password|passwd|pwd)\s*=\s*["'][^"']{1,}["']"#@,
            "Hardcoded password detected"@,
        ),
        (
            r#"(?i)(secret|token|key)\s*=\s*["'][^"']{8,}["']"#@,
            "Hardcoded secret/token/key detected"@,
        ),
        (
            r#"(?i)(access_key|access-key)\s*=\s*["'][A-Z0-9]{16,}["']"#@,
            "Hardcoded access key detected"@,
        ),
        (
            r#"(?i)(private_key|private-key)\s*=\s*["']-----BEGIN"#@,
            "Hardcoded private key detected"@,
        ),
        (
            r#"(?i)(api_key|api-key)\s*=\s*["'][A-Za-z0-9]{20,}["']"#@,
            "Hardcoded API key detected"@,
        ),
    ]
}

/// The diagnostic for a credential found between two byte offsets.
pub open spec fn credential_diagnostic(
    bytes: Seq<u8>,
    message: Seq<char>,
    from: int,
    to: int,
) -> DiagnosticModel {
    DiagnosticModel {
        rule_id: "no-hardcoded-credentials"@,
        message,
        severity: Severity::Error,
        range: (position_at(bytes, from as nat), position_at(bytes, to as nat)),
        code: Some("CREDENTIALS"@),
        suggest: None,
        docs_url: Some("https://forseti.dev/rules/terraform/no-hardcoded-credentials"@),
    }
}

/// What one pattern finds on one line: a diagnostic over its first match.
pub open spec fn line_finding(
    bytes: Seq<u8>,
    pattern: Seq<char>,
    message: Seq<char>,
    span: (int, int),
) -> Seq<DiagnosticModel> {
    match first_match(pattern, line_text(bytes, span)) {
        Some(found) => seq![
            credential_diagnostic(bytes, message, span.0 + found.0, span.0 + found.1),
        ],
        None => Seq::empty(),
    }
}

/// What one pattern finds on the given lines, in their order.
pub open spec fn line_findings(
    bytes: Seq<u8>,
    pattern: Seq<char>,
    message: Seq<char>,
    spans: Seq<(int, int)>,
) -> Seq<DiagnosticModel>
    decreases spans.len(),
{
    if spans.len() == 0 {
        Seq::empty()
    } else {
        line_findings(bytes, pattern, message, spans.drop_last()) + line_finding(
            bytes,
            pattern,
            message,
            spans.last(),
        )
    }
}

/// What one pattern finds in a text. A pattern that the engine rejects
/// finds nothing.
pub open spec fn pattern_findings(
    bytes: Seq<u8>,
    pattern: Seq<char>,
    message: Seq<char>,
) -> Seq<DiagnosticModel> {
    if pattern_compiles(pattern) {
        line_findings(bytes, pattern, message, lines(bytes))
    } else {
        Seq::empty()
    }
}

/// What the given patterns find in a text: pattern by pattern, and for
/// each pattern line by line.
pub open spec fn findings_of(bytes: Seq<u8>, patterns: Seq<(Seq<char>, Seq<char>)>) -> Seq<
    DiagnosticModel,
>
    decreases patterns.len(),
{
    if patterns.len() == 0 {
        Seq::empty()
    } else {
        findings_of(bytes, patterns.drop_last()) + pattern_findings(
            bytes,
            patterns.last().0,
            patterns.last().1,
        )
    }
}

/// The diagnostics of the rule for a text.
pub open spec fn credential_findings(text: Seq<char>) -> Seq<DiagnosticModel> {
    findings_of(encode_utf8(text), credential_patterns())
}

/// The pattern and the message of the credential family at `index`.
fn credential_pattern(index: usize) -> (r: (&'static str, &'static str))
    requires
        index < 5,
    ensures
        (r.0@, r.1@) == credential_patterns()[index as int],
{
    if index == 0 {
        (r#"(?i)(password|passwd|pwd)\s*=\s*["'][^"']{1,}["']"#, "Hardcoded password detected")
    } else if index == 1 {
        (
            r#"(?i)(secret|token|key)\s*=\s*["'][^"']{8,}["']"#,
            "Hardcoded secret/token/key detected",
        )
    } else if index == 2 {
        (
            r#"(?i)(access_key|access-key)\s*=\s*["'][A-Z0-9]{16,}["']"#,
            "Hardcoded access key detected",
        )
    } else if index == 3 {
        (r#"(?i)(private_key|private-key)\s*=\s*["']-----BEGIN"#, "Hardcoded private key detected")
    } else {
        (
            r#"(?i)(api_key|api-key)\s*=\s*["'][A-Za-z0-9]{20,}["']"#,
            "Hardcoded API key detected",
        )
    }
}

/// Builds the diagnostic for a credential found between two byte offsets.
fn credential_report(text: &str, message: &str, from: usize, to: usize) -> (d: Diagnostic)
    ensures
        d@ == credential_diagnostic(text.spec_bytes(), message@, from as int, to as int),
        from <= to ==> d@.well_ranged(),
{
    let bytes = text.as_bytes();
    proof {
        if from <= to {
            lemma_position_ordered(bytes@, from as nat, to as nat);
        }
    }
    Diagnostic {
        rule_id: String::from_str("no-hardcoded-credentials"),
        message: String::from_str(message),
        severity: Severity::Error,
        range: Range { start: position_in(bytes, from), end: position_in(bytes, to) },
        code: Some(String::from_str("CREDENTIALS")),
        suggest: None,
        docs_url: Some(
            String::from_str("https://forseti.dev/rules/terraform/no-hardcoded-credentials"),
        ),
    }
}

/// Reports what one pattern finds on the lines of the text.
fn check_pattern(pattern: &str, message: &str, spans: &Vec<(usize, usize)>, ctx: &mut RuleContext)
    requires
        spans_view(spans@) == lines(old(ctx).text.spec_bytes()),
        forall|i: int|
            0 <= i < spans@.len() ==> span_in(
                old(ctx).text.spec_bytes(),
                #[trigger] spans_view(spans@)[i],
            ),
    ensures
        final(ctx).text == old(ctx).text,
        final(ctx).reported() == old(ctx).reported() + pattern_findings(
            old(ctx).text.spec_bytes(),
            pattern@,
            message@,
        ),
        all_well_ranged(pattern_findings(old(ctx).text.spec_bytes(), pattern@, message@)),
{
    let text = ctx.text;
    let ghost bytes = text.spec_bytes();
    let ghost all = spans_view(spans@);
    match compile(pattern) {
        None => {
            proof {
                assert(ctx.reported() + Seq::<DiagnosticModel>::empty() =~= ctx.reported());
            }
        },
        Some(re) => {
            let mut i: usize = 0;
            proof {
                assert(all.take(0) =~= Seq::<(int, int)>::empty());
                assert(ctx.reported() + Seq::<DiagnosticModel>::empty() =~= ctx.reported());
            }
            while i < spans.len()
                invariant
                    i <= spans@.len(),
                    ctx.text == text,
                    bytes == text.spec_bytes(),
                    all == spans_view(spans@),
                    all == lines(bytes),
                    regex_source(re) == pattern@,
                    forall|k: int| 0 <= k < spans@.len() ==> span_in(bytes, #[trigger] all[k]),
                    ctx.reported() == old(ctx).reported() + line_findings(
                        bytes,
                        pattern@,
                        message@,
                        all.take(i as int),
                    ),
                    all_well_ranged(line_findings(bytes, pattern@, message@, all.take(i as int))),
                decreases spans@.len() - i,
            {
                let span = spans[i];
                proof {
                    assert(all[i as int] == (span.0 as int, span.1 as int));
                    assert(span_in(bytes, all[i as int]));
                    assert(all.take(i + 1).drop_last() =~= all.take(i as int));
                    assert(all.take(i + 1).last() == all[i as int]);
                }
                let line = slice_text(text, span.0, span.1);
                let ghost before = ctx.reported();
                match find_first(&re, line) {
                    Some(found) => {
                        let diagnostic = credential_report(
                            text,
                            message,
                            span.0 + found.0,
                            span.0 + found.1,
                        );
                        ctx.report(diagnostic);
                        proof {
                            assert(ctx.reported() =~= before + line_finding(
                                bytes,
                                pattern@,
                                message@,
                                all[i as int],
                            ));
                            assert(line_finding(bytes, pattern@, message@, all[i as int])[0]
                                == diagnostic@);
                        }
                    },
                    None => {
                        proof {
                            assert(ctx.reported() =~= before + line_finding(
                                bytes,
                                pattern@,
                                message@,
                                all[i as int],
                            ));
                        }
                    },
                }
                proof {
                    assert(ctx.reported() =~= old(ctx).reported() + line_findings(
                        bytes,
                        pattern@,
                        message@,
                        all.take(i + 1),
                    ));
                    lemma_well_ranged_concat(
                        line_findings(bytes, pattern@, message@, all.take(i as int)),
                        line_finding(bytes, pattern@, message@, all[i as int]),
                    );
                }
                i = i + 1;
            }
            proof {
                assert(all.take(spans@.len() as int) =~= all);
            }
        },
    }
}

impl NoHardcodedCredentialsRule {
    /// The rule's identifier.
    pub fn id(&self) -> (r: &'static str)
        ensures
            r@ == "no-hardcoded-credentials"@,
    {
        "no-hardcoded-credentials"
    }

    /// What the rule is for.
    pub fn description(&self) -> (r: &'static str)
        ensures
            r@ == "Detects hardcoded credentials such as passwords, API keys, tokens, and secrets in Terraform files"@,
    {
        "Detects hardcoded credentials such as passwords, API keys, tokens, and secrets in Terraform files"
    }

    /// How the rule runs unless configured otherwise.
    pub fn default_config(&self) -> (r: RuleLevel)
        ensures
            r == RuleLevel::Error,
    {
        RuleLevel::Error
    }

    /// Reports every credential that the patterns find in the text of the
    /// context, whether or not the text parses.
    pub fn check(&self, ctx: &mut RuleContext)
        ensures
            final(ctx).text == old(ctx).text,
            final(ctx).reported() == old(ctx).reported() + credential_findings(old(ctx).text@),
            all_well_ranged(credential_findings(old(ctx).text@)),
    {
        let spans = line_spans(ctx.text);
        let ghost bytes = ctx.text.spec_bytes();
        let ghost patterns = credential_patterns();
        let mut index: usize = 0;
        proof {
            assert(patterns.take(0) =~= Seq::<(Seq<char>, Seq<char>)>::empty());
            assert(ctx.reported() + Seq::<DiagnosticModel>::empty() =~= ctx.reported());
        }
        while index < 5
            invariant
                index <= 5,
                ctx.text == old(ctx).text,
                bytes == ctx.text.spec_bytes(),
                patterns == credential_patterns(),
                patterns.len() == 5,
                spans_view(spans@) == lines(bytes),
                forall|i: int| 0 <= i < spans@.len() ==> span_in(bytes, #[trigger] spans_view(spans@)[i]),
                ctx.reported() == old(ctx).reported() + findings_of(
                    bytes,
                    patterns.take(index as int),
                ),
                all_well_ranged(findings_of(bytes, patterns.take(index as int))),
            decreases 5 - index,
        {
            let (pattern, message) = credential_pattern(index);
            let ghost before = ctx.reported();
            check_pattern(pattern, message, &spans, ctx);
            proof {
                assert(patterns.take(index + 1).drop_last() =~= patterns.take(index as int));
                assert(patterns.take(index + 1).last() == patterns[index as int]);
                assert(ctx.reported() =~= old(ctx).reported() + findings_of(
                    bytes,
                    patterns.take(index + 1),
                ));
                lemma_well_ranged_concat(
                    findings_of(bytes, patterns.take(index as int)),
                    pattern_findings(bytes, pattern@, message@),
                );
            }
            index = index + 1;
        }
        proof {
            assert(patterns.take(5) =~= patterns);
        }
    }
}

} // verus!

//! Detection of quoted strings that wrap a plain reference in `${...}`.
//!
//! The rule reads the text line by line and does not need it to parse.
//! Every match on a line is considered, not only the first.

use crate::diagnostic::{
    all_well_ranged, lemma_well_ranged_concat, Diagnostic, DiagnosticModel, RuleContext, RuleLevel,
    Severity,
};
use crate::pattern::{all_matches, compile, find_all, pattern_compiles, regex_source};
use crate::position::{lemma_position_ordered, position_at, position_in, Range};
use crate::text::{line_spans, line_text, lines, slice_text, span_in, spans_view};
use vstd::prelude::*;
use vstd::string::*;
use vstd::utf8::*;

verus! {

#[derive(Clone, Copy, Debug, PartialEq, Eq)]
pub struct NoDeprecatedInterpolationRule;

/// The pattern of a quoted string that holds an interpolation.
pub open spec fn interpolation_pattern() -> Seq<char> {
    r#""[^"]*\$\{([^}]+)\}[^"]*""#@
}

/// A space, `+`, `*`, `/` or `(`: a byte that marks an expression which
/// needs the interpolation syntax.
pub open spec fn is_operator_byte(b: u8) -> bool {
    b == 0x20 || b == 0x2b || b == 0x2a || b == 0x2f || b == 0x28
}

/// The bytes between two offsets hold a byte that marks an expression.
pub open spec fn is_complex(bytes: Seq<u8>, from: int, to: int) -> bool {
    exists|k: int| from <= k < to && is_operator_byte(#[trigger] bytes[k])
}

/// The diagnostic for an interpolation found between two byte offsets.
pub open spec fn interpolation_diagnostic(bytes: Seq<u8>, from: int, to: int) -> DiagnosticModel {
    DiagnosticModel {
        rule_id: "no-deprecated-interpolation"@,
        message: "Deprecated interpolation syntax found. Use direct variable reference instead"@,
        severity: Severity::Warn,
        range: (position_at(bytes, from as nat), position_at(bytes, to as nat)),
        code: Some("DEPRECATED_INTERPOLATION"@),
        suggest: None,
        docs_url: Some("https://forseti.dev/rules/terraform/no-deprecated-interpolation"@),
    }
}

/// What one match gives: nothing where the matched text holds an
/// expression, else a diagnostic over the whole match.
pub open spec fn match_finding(bytes: Seq<u8>, from: int, to: int) -> Seq<DiagnosticModel> {
    if is_complex(bytes, from, to) {
        Seq::empty()
    } else {
        seq![interpolation_diagnostic(bytes, from, to)]
    }
}

/// What the matches on a line that begins at `start` give, in their order.
pub open spec fn match_findings(bytes: Seq<u8>, start: int, found: Seq<(int, int)>) -> Seq<
    DiagnosticModel,
>
    decreases found.len(),
{
    if found.len() == 0 {
        Seq::empty()
    } else {
        match_findings(bytes, start, found.drop_last()) + match_finding(
            bytes,
            start + found.last().0,
            start + found.last().1,
        )
    }
}

/// What the rule finds on the given lines, in their order.
pub open spec fn interpolation_line_findings(bytes: Seq<u8>, spans: Seq<(int, int)>) -> Seq<
    DiagnosticModel,
>
    decreases spans.len(),
{
    if spans.len() == 0 {
        Seq::empty()
    } else {
        interpolation_line_findings(bytes, spans.drop_last()) + match_findings(
            bytes,
            spans.last().0,
            all_matches(interpolation_pattern(), line_text(bytes, spans.last())),
        )
    }
}

/// The diagnostics of the rule for a text. Were the engine to reject the
/// pattern, the rule would find nothing.
pub open spec fn interpolation_findings(text: Seq<char>) -> Seq<DiagnosticModel> {
    if pattern_compiles(interpolation_pattern()) {
        interpolation_line_findings(encode_utf8(text), lines(encode_utf8(text)))
    } else {
        Seq::empty()
    }
}

/// Whether the bytes between two offsets hold a byte that marks an
/// expression.
fn holds_expression(bytes: &[u8], from: usize, to: usize) -> (r: bool)
    requires
        from <= to <= bytes@.len(),
    ensures
        r == is_complex(bytes@, from as int, to as int),
{
    let mut k: usize = from;
    while k < to
        invariant
            from <= k <= to <= bytes@.len(),
            forall|j: int| from <= j < k ==> !is_operator_byte(#[trigger] bytes@[j]),
        decreases to - k,
    {
        let b: u8 = bytes[k];
        if b == 0x20 || b == 0x2b || b == 0x2a || b == 0x2f || b == 0x28 {
            return true;
        }
        k = k + 1;
    }
    false
}

/// Builds the diagnostic for an interpolation found between two byte
/// offsets.
fn interpolation_report(text: &str, from: usize, to: usize) -> (d: Diagnostic)
    ensures
        d@ == interpolation_diagnostic(text.spec_bytes(), from as int, to as int),
        from <= to ==> d@.well_ranged(),
{
    let bytes = text.as_bytes();
    proof {
        if from <= to {
            lemma_position_ordered(bytes@, from as nat, to as nat);
        }
    }
    Diagnostic {
        rule_id: String::from_str("no-deprecated-interpolation"),
        message: String::from_str(
            "Deprecated interpolation syntax found. Use direct variable reference instead",
        ),
        severity: Severity::Warn,
        range: Range { start: position_in(bytes, from), end: position_in(bytes, to) },
        code: Some(String::from_str("DEPRECATED_INTERPOLATION")),
        suggest: None,
        docs_url: Some(
            String::from_str("https://forseti.dev/rules/terraform/no-deprecated-interpolation"),
        ),
    }
}

/// Reports what the matches on one line give.
fn check_line(re: &regex::Regex, span: (usize, usize), ctx: &mut RuleContext)
    requires
        regex_source(*re) == interpolation_pattern(),
        span_in(old(ctx).text.spec_bytes(), (span.0 as int, span.1 as int)),
    ensures
        final(ctx).text == old(ctx).text,
        final(ctx).reported() == old(ctx).reported() + match_findings(
            old(ctx).text.spec_bytes(),
            span.0 as int,
            all_matches(
                interpolation_pattern(),
                line_text(old(ctx).text.spec_bytes(), (span.0 as int, span.1 as int)),
            ),
        ),
        all_well_ranged(
            match_findings(
                old(ctx).text.spec_bytes(),
                span.0 as int,
                all_matches(
                    interpolation_pattern(),
                    line_text(old(ctx).text.spec_bytes(), (span.0 as int, span.1 as int)),
                ),
            ),
        ),
{
    let text = ctx.text;
    let bytes = text.as_bytes();
    let line = slice_text(text, span.0, span.1);
    let found = find_all(re, line);
    let ghost all = all_matches(interpolation_pattern(), line@);
    let mut i: usize = 0;
    proof {
        assert(all.take(0) =~= Seq::<(int, int)>::empty());
        assert(ctx.reported() + Seq::<DiagnosticModel>::empty() =~= ctx.reported());
    }
    while i < found.len()
        invariant
            i <= found@.len(),
            ctx.text == text,
            bytes@ == text.spec_bytes(),
            span.0 <= span.1 <= bytes@.len(),
            line.spec_bytes().len() == span.1 - span.0,
            found@.len() == all.len(),
            forall|k: int|
                0 <= k < found@.len() ==> (#[trigger] found@[k].0 as int, found@[k].1 as int)
                    == all[k] && 0 <= found@[k].0 <= found@[k].1 <= line.spec_bytes().len(),
            ctx.reported() == old(ctx).reported() + match_findings(
                bytes@,
                span.0 as int,
                all.take(i as int),
            ),
            all_well_ranged(match_findings(bytes@, span.0 as int, all.take(i as int))),
        decreases found@.len() - i,
    {
        let one = found[i];
        proof {
            assert((found@[i as int].0 as int, found@[i as int].1 as int) == all[i as int]);
            assert(all.take(i + 1).drop_last() =~= all.take(i as int));
            assert(all.take(i + 1).last() == all[i as int]);
        }
        let from: usize = span.0 + one.0;
        let to: usize = span.0 + one.1;
        let ghost before = ctx.reported();
        if !holds_expression(bytes, from, to) {
            let diagnostic = interpolation_report(text, from, to);
            ctx.report(diagnostic);
            proof {
                assert(match_finding(bytes@, from as int, to as int)[0] == diagnostic@);
            }
        }
        proof {
            assert(ctx.reported() =~= before + match_finding(bytes@, from as int, to as int));
            lemma_well_ranged_concat(
                match_findings(bytes@, span.0 as int, all.take(i as int)),
                match_finding(bytes@, from as int, to as int),
            );
            assert(ctx.reported() =~= old(ctx).reported() + match_findings(
                bytes@,
                span.0 as int,
                all.take(i + 1),
            ));
        }
        i = i + 1;
    }
    proof {
        assert(all.take(found@.len() as int) =~= all);
    }
}

impl NoDeprecatedInterpolationRule {
    /// The rule's identifier.
    pub fn id(&self) -> (r: &'static str)
        ensures
            r@ == "no-deprecated-interpolation"@,
    {
        "no-deprecated-interpolation"
    }

    /// What the rule is for.
    pub fn description(&self) -> (r: &'static str)
        ensures
            r@ == "Flags deprecated interpolation syntax in Terraform (e.g., \"${var.name}\") in favor of modern expressions"@,
    {
        "Flags deprecated interpolation syntax in Terraform (e.g., \"${var.name}\") in favor of modern expressions"
    }

    /// How the rule runs unless configured otherwise.
    pub fn default_config(&self) -> (r: RuleLevel)
        ensures
            r == RuleLevel::Error,
    {
        RuleLevel::Error
    }

    /// Reports every quoted string of the text that wraps a plain
    /// reference in an interpolation, whether or not the text parses.
    pub fn check(&self, ctx: &mut RuleContext)
        ensures
            final(ctx).text == old(ctx).text,
            final(ctx).reported() == old(ctx).reported() + interpolation_findings(
                old(ctx).text@,
            ),
            all_well_ranged(interpolation_findings(old(ctx).text@)),
    {
        let ghost bytes = ctx.text.spec_bytes();
        match compile(r#""[^"]*\$\{([^}]+)\}[^"]*""#) {
            None => {
                proof {
                    assert(ctx.reported() + Seq::<DiagnosticModel>::empty() =~= ctx.reported());
                }
            },
            Some(re) => {
                let spans = line_spans(ctx.text);
                let ghost all = spans_view(spans@);
                let mut i: usize = 0;
                proof {
                    assert(all.take(0) =~= Seq::<(int, int)>::empty());
                    assert(ctx.reported() + Seq::<DiagnosticModel>::empty() =~= ctx.reported());
                }
                while i < spans.len()
                    invariant
                        i <= spans@.len(),
                        ctx.text == old(ctx).text,
                        bytes == ctx.text.spec_bytes(),
                        all == spans_view(spans@),
                        all == lines(bytes),
                        regex_source(re) == interpolation_pattern(),
                        forall|k: int| 0 <= k < spans@.len() ==> span_in(bytes, #[trigger] all[k]),
                        ctx.reported() == old(ctx).reported() + interpolation_line_findings(
                            bytes,
                            all.take(i as int),
                        ),
                        all_well_ranged(interpolation_line_findings(bytes, all.take(i as int))),
                    decreases spans@.len() - i,
                {
                    let span = spans[i];
                    proof {
                        assert(all[i as int] == (span.0 as int, span.1 as int));
                        assert(span_in(bytes, all[i as int]));
                        assert(all.take(i + 1).drop_last() =~= all.take(i as int));
                        assert(all.take(i + 1).last() == all[i as int]);
                    }
                    check_line(&re, span, ctx);
                    proof {
                        lemma_well_ranged_concat(
                            interpolation_line_findings(bytes, all.take(i as int)),
                            match_findings(
                                bytes,
                                span.0 as int,
                                all_matches(interpolation_pattern(), line_text(bytes, all[i as int])),
                            ),
                        );
                        assert(ctx.reported() =~= old(ctx).reported()
                            + interpolation_line_findings(bytes, all.take(i + 1)));
                    }
                    i = i + 1;
                }
                proof {
                    assert(all.take(spans@.len() as int) =~= all);
                }
            },
        }
    }
}

} // verus!

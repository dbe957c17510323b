//! Diagnostics and the sink that collects them for one source text.

use crate::position::{lex_le, Range};
use vstd::prelude::*;

verus! {

/// How serious a finding is.
#[derive(Clone, Copy, Debug, PartialEq, Eq, Structural)]
pub enum Severity {
    Error,
    Warn,
    Info,
}

impl Severity {
    /// The name under which a severity is reported.
    pub open spec fn label(self) -> Seq<char> {
        match self {
            Severity::Error => "error"@,
            Severity::Warn => "warn"@,
            Severity::Info => "info"@,
        }
    }

    /// The name under which the severity is reported.
    pub fn as_str(&self) -> (r: &'static str)
        ensures
            r@ == self.label(),
    {
        match self {
            Severity::Error => "error",
            Severity::Warn => "warn",
            Severity::Info => "info",
        }
    }
}

/// How a rule is configured to run: reporting at a severity, or not at
/// all.
#[derive(Clone, Copy, Debug, PartialEq, Eq, Structural)]
pub enum RuleLevel {
    Error,
    Warn,
    Off,
}

impl RuleLevel {
    /// The name under which a level is configured.
    pub open spec fn label(self) -> Seq<char> {
        match self {
            RuleLevel::Error => "error"@,
            RuleLevel::Warn => "warn"@,
            RuleLevel::Off => "off"@,
        }
    }

    /// The name under which the level is configured.
    pub fn as_str(&self) -> (r: &'static str)
        ensures
            r@ == self.label(),
    {
        match self {
            RuleLevel::Error => "error",
            RuleLevel::Warn => "warn",
            RuleLevel::Off => "off",
        }
    }
}

/// The mathematical value of a [`Diagnostic`]: its texts as sequences of
/// characters, its range as the coordinates of its two ends.
pub struct DiagnosticModel {
    pub rule_id: Seq<char>,
    pub message: Seq<char>,
    pub severity: Severity,
    pub range: ((nat, nat), (nat, nat)),
    pub code: Option<Seq<char>>,
    pub suggest: Option<Seq<char>>,
    pub docs_url: Option<Seq<char>>,
}

impl DiagnosticModel {
    /// The range starts no later than it ends.
    pub open spec fn well_ranged(self) -> bool {
        lex_le(self.range.0, self.range.1)
    }
}

/// Every range starts no later than it ends.
pub open spec fn all_well_ranged(diagnostics: Seq<DiagnosticModel>) -> bool {
    forall|i: int| 0 <= i < diagnostics.len() ==> (#[trigger] diagnostics[i]).well_ranged()
}

/// Joining keeps every range in order.
pub proof fn lemma_well_ranged_concat(a: Seq<DiagnosticModel>, b: Seq<DiagnosticModel>)
    requires
        all_well_ranged(a),
        all_well_ranged(b),
    ensures
        all_well_ranged(a + b),
{
    assert forall|i: int| 0 <= i < (a + b).len() implies (#[trigger] (a + b)[i]).well_ranged() by {
        if i < a.len() {
            assert((a + b)[i] == a[i]);
        } else {
            assert((a + b)[i] == b[i - a.len()]);
        }
    }
}

/// A located finding of a rule.
#[derive(Clone, Debug, PartialEq, Eq)]
pub struct Diagnostic {
    pub rule_id: String,
    pub message: String,
    pub severity: Severity,
    pub range: Range,
    pub code: Option<String>,
    pub suggest: Option<String>,
    pub docs_url: Option<String>,
}

/// The characters of an optional text.
pub open spec fn optional_text(text: Option<String>) -> Option<Seq<char>> {
    match text {
        Some(s) => Some(s@),
        None => None,
    }
}

impl View for Diagnostic {
    type V = DiagnosticModel;

    open spec fn view(&self) -> DiagnosticModel {
        DiagnosticModel {
            rule_id: self.rule_id@,
            message: self.message@,
            severity: self.severity,
            range: (self.range.start.place(), self.range.end.place()),
            code: optional_text(self.code),
            suggest: optional_text(self.suggest),
            docs_url: optional_text(self.docs_url),
        }
    }
}

/// The values of a sequence of diagnostics, in order.
pub open spec fn models(diagnostics: Seq<Diagnostic>) -> Seq<DiagnosticModel> {
    Seq::new(diagnostics.len(), |i: int| diagnostics[i]@)
}

/// The analysis of one source text: the text and the diagnostics reported
/// on it so far.
pub struct RuleContext<'a> {
    pub text: &'a str,
    pub diagnostics: Vec<Diagnostic>,
}

impl<'a> RuleContext<'a> {
    /// The diagnostics reported so far, in the order of their reports.
    pub open spec fn reported(&self) -> Seq<DiagnosticModel> {
        models(self.diagnostics@)
    }

    /// A context for `text` with nothing reported.
    pub fn new(text: &'a str) -> (ctx: RuleContext<'a>)
        ensures
            ctx.text == text,
            ctx.diagnostics@.len() == 0,
            ctx.reported() == Seq::<DiagnosticModel>::empty(),
    {
        let ctx = RuleContext { text, diagnostics: Vec::new() };
        proof {
            assert(ctx.reported() =~= Seq::<DiagnosticModel>::empty());
        }
        ctx
    }

    /// Appends a diagnostic to those reported.
    pub fn report(&mut self, diagnostic: Diagnostic)
        ensures
            final(self).text == old(self).text,
            final(self).diagnostics@ == old(self).diagnostics@.push(diagnostic),
            final(self).reported() == old(self).reported().push(diagnostic@),
    {
        self.diagnostics.push(diagnostic);
        proof {
            assert(self.reported() =~= old(self).reported().push(diagnostic@));
        }
    }
}

} // verus!

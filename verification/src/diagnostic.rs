//! Validation diagnostics and the order in which they are reported.
use vstd::prelude::*;

use crate::permutation::{insertion_sort, lemma_sorted_unique, views_of};
use crate::text::{
    compare_path_text, compare_text, lemma_text_order_antisymmetric, lemma_text_order_transitive, path_text_compare,
    text_compare, TextOrder,
};

verus! {

/// Describes how serious a diagnostic is.
#[derive(Debug, Clone, Copy, PartialEq, Eq, Structural)]
pub enum Severity {
    /// Something looks suspicious but is not fatal.
    Warning,
    /// A problem that prevents the content from being considered valid.
    Error,
}

/// A single validation message produced while checking campaign content.
#[derive(Debug, PartialEq, Eq)]
pub struct Diagnostic {
    /// Indicates whether this is a warning or an error.
    pub severity: Severity,
    /// Stable identifier that tools can use for filtering or documentation.
    pub code: &'static str,
    /// Human-readable explanation of the issue.
    pub message: String,
    /// File associated with the diagnostic, when applicable, as text.
    pub path: Option<String>,
}

/// What a diagnostic holds, with its texts taken by their characters.
pub struct DiagnosticView {
    pub severity: Severity,
    pub code: Seq<char>,
    pub message: Seq<char>,
    pub path: Option<Seq<char>>,
}

impl View for Diagnostic {
    type V = DiagnosticView;

    open spec fn view(&self) -> DiagnosticView {
        DiagnosticView {
            severity: self.severity,
            code: self.code@,
            message: self.message@,
            path: match self.path {
                Some(p) => Some(p@),
                None => None,
            },
        }
    }
}

/// The views of a sequence of diagnostics.
pub open spec fn diagnostics_view(s: Seq<Diagnostic>) -> Seq<DiagnosticView> {
    s.map_values(|d: Diagnostic| d@)
}

/// Orders optional paths: no path first, then paths by their parts split
/// at `/`. Every path in a validation report is the one manifest path, so
/// the separator never decides the order of a report.
pub open spec fn path_compare(a: Option<Seq<char>>, b: Option<Seq<char>>) -> int {
    match (a, b) {
        (None, None) => 0,
        (None, Some(_)) => -1,
        (Some(_), None) => 1,
        (Some(x), Some(y)) => path_text_compare(x, y, '/'),
    }
}

/// The report order of diagnostics: by path, then by code, then by message.
pub open spec fn diagnostic_compare(a: DiagnosticView, b: DiagnosticView) -> int {
    let p = path_compare(a.path, b.path);
    if p != 0 {
        p
    } else {
        let c = text_compare(a.code, b.code);
        if c != 0 {
            c
        } else {
            text_compare(a.message, b.message)
        }
    }
}

/// Each diagnostic comes no later in the report order than the next ones.
pub open spec fn diagnostics_sorted(s: Seq<DiagnosticView>) -> bool {
    forall|i: int, j: int| 0 <= i < j < s.len() ==> diagnostic_compare(#[trigger] s[i], #[trigger] s[j]) <= 0
}

/// The report order is antisymmetric, and two diagnostics tie only when
/// their paths, codes and messages are equal.
pub proof fn lemma_diagnostic_compare_antisymmetric(a: DiagnosticView, b: DiagnosticView)
    ensures
        diagnostic_compare(a, b) == -diagnostic_compare(b, a),
        diagnostic_compare(a, b) == 0 <==> (a.path == b.path && a.code == b.code && a.message == b.message),
{
    lemma_text_order_antisymmetric(a.code, b.code, None);
    lemma_text_order_antisymmetric(a.message, b.message, None);
    match (a.path, b.path) {
        (Some(x), Some(y)) => lemma_text_order_antisymmetric(x, y, Some('/')),
        _ => {},
    }
}

/// The report order is transitive.
pub proof fn lemma_diagnostic_compare_transitive(a: DiagnosticView, b: DiagnosticView, c: DiagnosticView)
    requires
        diagnostic_compare(a, b) <= 0,
        diagnostic_compare(b, c) <= 0,
    ensures
        diagnostic_compare(a, c) <= 0,
        diagnostic_compare(a, b) < 0 || diagnostic_compare(b, c) < 0 ==> diagnostic_compare(a, c) < 0,
{
    lemma_diagnostic_compare_antisymmetric(a, b);
    lemma_diagnostic_compare_antisymmetric(b, c);
    lemma_diagnostic_compare_antisymmetric(a, c);
    lemma_text_order_antisymmetric(a.code, b.code, None);
    lemma_text_order_antisymmetric(b.code, c.code, None);
    lemma_text_order_antisymmetric(a.code, c.code, None);
    lemma_text_order_antisymmetric(a.message, b.message, None);
    lemma_text_order_antisymmetric(b.message, c.message, None);
    lemma_text_order_antisymmetric(a.message, c.message, None);
    match (a.path, b.path, c.path) {
        (Some(x), Some(y), Some(z)) => {
            lemma_text_order_antisymmetric(x, y, Some('/'));
            lemma_text_order_antisymmetric(y, z, Some('/'));
            lemma_text_order_antisymmetric(x, z, Some('/'));
            if path_text_compare(x, y, '/') <= 0 && path_text_compare(y, z, '/') <= 0 {
                lemma_text_order_transitive(x, y, z, Some('/'));
            }
        },
        _ => {},
    }
    if text_compare(a.code, b.code) <= 0 && text_compare(b.code, c.code) <= 0 {
        lemma_text_order_transitive(a.code, b.code, c.code, None);
    }
    if text_compare(a.message, b.message) <= 0 && text_compare(b.message, c.message) <= 0 {
        lemma_text_order_transitive(a.message, b.message, c.message, None);
    }
}

/// Every diagnostic in `s` is an error.
pub open spec fn all_errors(s: Seq<DiagnosticView>) -> bool {
    forall|i: int| 0 <= i < s.len() ==> (#[trigger] s[i]).severity == Severity::Error
}

/// Two reports of errors in the report order that hold the same
/// diagnostics, each as often, are the same report.
pub proof fn lemma_sorted_errors_unique(a: Seq<DiagnosticView>, b: Seq<DiagnosticView>)
    requires
        diagnostics_sorted(a),
        diagnostics_sorted(b),
        all_errors(a),
        all_errors(b),
        a.to_multiset() == b.to_multiset(),
    ensures
        a == b,
{
    let order = |x: DiagnosticView, y: DiagnosticView| diagnostic_compare(x, y);
    let kind = |x: DiagnosticView| x.severity == Severity::Error;
    assert forall|x: DiagnosticView, y: DiagnosticView|
        kind(x) && kind(y) && #[trigger] order(x, y) <= 0 && #[trigger] order(y, x) <= 0 implies x == y by {
        lemma_diagnostic_compare_antisymmetric(x, y);
    }
    lemma_sorted_unique(a, b, order, kind);
}

fn compare_paths(a: &Option<String>, b: &Option<String>) -> (r: TextOrder)
    ensures
        r == TextOrder::Less <==> path_compare(
            match a { Some(p) => Some(p@), None => None },
            match b { Some(p) => Some(p@), None => None },
        ) < 0,
        r == TextOrder::Equal <==> path_compare(
            match a { Some(p) => Some(p@), None => None },
            match b { Some(p) => Some(p@), None => None },
        ) == 0,
{
    match (a, b) {
        (None, None) => TextOrder::Equal,
        (None, Some(_)) => TextOrder::Less,
        (Some(_), None) => TextOrder::Greater,
        (Some(x), Some(y)) => compare_path_text(x.as_str(), y.as_str(), '/'),
    }
}

/// Compares two diagnostics in the report order.
pub fn compare_diagnostics(a: &Diagnostic, b: &Diagnostic) -> (r: TextOrder)
    ensures
        r == TextOrder::Less <==> diagnostic_compare(a@, b@) < 0,
        r == TextOrder::Equal <==> diagnostic_compare(a@, b@) == 0,
        r == TextOrder::Greater <==> diagnostic_compare(a@, b@) > 0,
{
    let p = compare_paths(&a.path, &b.path);
    if p != TextOrder::Equal {
        return p;
    }
    let c = compare_text(a.code, b.code);
    if c != TextOrder::Equal {
        return c;
    }
    compare_text(a.message.as_str(), b.message.as_str())
}

/// Puts diagnostics in the report order: by path, then code, then message.
/// The result holds the same diagnostics as `input`, each as often.
pub fn sort_diagnostics(input: Vec<Diagnostic>) -> (out: Vec<Diagnostic>)
    ensures
        diagnostics_sorted(diagnostics_view(out@)),
        diagnostics_view(out@).to_multiset() == diagnostics_view(input@).to_multiset(),
{
    let ghost order = |x: DiagnosticView, y: DiagnosticView| diagnostic_compare(x, y);
    proof {
        assert forall|x: DiagnosticView, y: DiagnosticView| #[trigger] order(x, y) == -order(y, x) by {
            lemma_diagnostic_compare_antisymmetric(x, y);
        }
        assert forall|x: DiagnosticView, y: DiagnosticView, z: DiagnosticView|
            #![trigger order(x, y), order(y, z)]
            order(x, y) <= 0 && order(y, z) <= 0 implies order(x, z) <= 0 by {
            lemma_diagnostic_compare_transitive(x, y, z);
        }
    }
    let out = insertion_sort(input, compare_diagnostics, Ghost(order));
    assert(views_of(out@) =~= diagnostics_view(out@));
    assert(views_of(input@) =~= diagnostics_view(input@));
    out
}

} // verus!

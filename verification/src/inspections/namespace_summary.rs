//! Namespace summary unit: one informational check over the per-namespace
//! coverage rows.

use vstd::prelude::*;

use crate::inspections::support::{check_row, spec_check_row};
use crate::text::u64_string;
use crate::types::{CheckResult, NamespaceSummaryRow};

verus! {

/// The namespace unit's output: the single informational check and the
/// rows carried through for the report table.
pub struct NamespaceClassification {
    pub checks: Vec<CheckResult>,
    pub rows: Vec<NamespaceSummaryRow>,
}

/// Wraps the collected per-namespace rows in the unit's single passing
/// check; the rows pass through untouched.
pub fn summarize_namespaces(rows: Vec<NamespaceSummaryRow>) -> (r: NamespaceClassification)
    requires
        rows@.len() <= u64::MAX,
    ensures
        r.rows == rows,
        r.checks@.len() == 1,
        r.checks.deep_view()[0] == spec_check_row(
            "Namespace summary"@,
            "Per-namespace resource and policy coverage"@,
            100_000,
            crate::text::spec_u64_chars(rows@.len() as int) + " namespaces"@,
            ""@,
            0,
        ),
{
    let n = u64_string(rows.len() as u64);
    let details = crate::text::cat2(n.as_str(), " namespaces");
    let c = check_row(
        "Namespace summary",
        "Per-namespace resource and policy coverage",
        100_000,
        details,
        "",
        0,
    );
    let mut checks: Vec<CheckResult> = Vec::new();
    checks.push(c);
    NamespaceClassification { checks, rows }
}

} // verus!

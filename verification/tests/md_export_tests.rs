use kubeowler::md_export::{escape_html, md_to_csv, md_to_html};

#[test]
fn md_to_csv_parses_cluster_overview() {
    let md = r#"# Report
**Report ID**: `test-id`
**Cluster**: my-cluster
**Generated At**: 2026-01-01 00:00:00 UTC
## Cluster Overview
| Metric | Value |
|--------|-------|
| Cluster Version | v1.33.7 |
| Node Count | 4 |
| Ready Nodes | 4 |
| Pod Count | 83 |
| Namespace Count | 13 |
| Cluster Age (days) | 11 |
### Pod
| Resource | Level | Issue Code | Short Title |
|----------|-------|------------|-------------|
| `ns/pod-1` | Critical | [POD-003](http://x) | Restart count high |
"#;
    let csv = md_to_csv(md);
    assert!(csv.contains("section,cluster_name,report_id,cluster_version,node_count,ready_node_count,pod_count,namespace_count,cluster_age_days"));
    assert!(
        csv.contains("cluster_overview"),
        "CSV must have cluster_overview row"
    );
    assert!(
        csv.contains("my-cluster") && csv.contains("test-id"),
        "cluster name and report id"
    );
    assert!(
        csv.contains("v1.33.7") && csv.contains(",4,4,83,13,11"),
        "overview metrics from Metric|Value table"
    );
    assert!(
        csv.contains("POD-003")
            && csv.contains("Restart count high")
            && csv.contains("ns/pod-1"),
        "issue row from Resource|Level|Issue Code|Short Title table"
    );
}

#[test]
fn md_to_html_renders_tables() {
    let md = r#"# Report
## Overview
| Metric | Value |
|--------|-------|
| Nodes | 4 |
"#;
    let html = md_to_html(md);
    assert!(
        html.contains("<table>"),
        "HTML should contain <table> when the table extension is enabled"
    );
    assert!(html.contains("<tr>"));
    assert!(html.contains("<td>"));
    assert!(
        html.contains("data:image/png;base64,"),
        "HTML should embed logo as data URI for standalone report"
    );
}

#[test]
fn md_to_html_encodes_logo_bytes() {
    // the standard base64 of the PNG signature bytes; would fail if the
    // encoder handed the bytes back unchanged
    let html = md_to_html("hello");
    assert!(html.contains("data:image/png;base64,iVBORw0KGgo"));
    assert!(html.contains("<p>hello</p>"));
}

#[test]
fn md_to_csv_escapes_fields() {
    let md = "**Cluster**: my,cluster\n**Report ID**: `a\"b`\n";
    let csv = md_to_csv(md);
    assert!(csv.contains("cluster_overview,\"my,cluster\",\"a\"\"b\","));
}

#[test]
fn md_to_csv_exact_output() {
    let md = "# R\n**Cluster**: c1\n**Report ID**: `id1`\n## Cluster Overview\n| Metric | Value |\n|---|---|\n| Node Count | 2 |\n### Node\n| Resource | Level | Issue Code | Short Title |\n|---|---|---|---|\n| `n1` | Warning | NODE-002 | Pressure |\n";
    let csv = md_to_csv(md);
    let expected = "section,cluster_name,report_id,cluster_version,node_count,ready_node_count,pod_count,namespace_count,cluster_age_days\n\
cluster_overview,c1,id1,,2,,,,\n\
section,inspection_type,severity,category,description,resource,recommendation,rule_id\n\
issue,Node,Node,Warning,Node,Pressure,n1,,NODE-002\n";
    assert_eq!(csv, expected);
}

#[test]
fn md_to_csv_skips_separator_and_dash_rows() {
    let md = "### Pod\n| Resource | Level | Issue Code | Short Title |\n| --- | --- | --- | --- |\n| `p1` | Critical | [POD-001](u) | Failed |\n";
    let csv = md_to_csv(md);
    assert!(csv.contains("issue,Pod,Pod,Critical,Pod,Failed,p1,,POD-001"));
    // exactly one issue row
    assert_eq!(csv.matches("issue,").count(), 1);
}

#[test]
fn test_escape_html_entities() {
    assert_eq!(escape_html("a<b>&\"c\""), "a&lt;b&gt;&amp;&quot;c&quot;");
    assert_eq!(escape_html("plain"), "plain");
}

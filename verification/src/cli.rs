//! Command-line model: the check command's configuration values and the
//! inspection-type and report-format names. Argument parsing proper is the
//! caller's concern; this module owns the value types and the name tables.

use vstd::prelude::*;
use vstd::string::StringExecFns;

use crate::text::{chars_eq_lit, spec_to_lower, to_chars, to_lower};
use vstd::string::StrSliceExecFns;

verus! {

/// The whole command line: one subcommand.
#[derive(Debug)]
pub struct Args {
    pub command: Commands,
}

/// The check subcommand's configuration.
#[derive(Debug)]
pub enum Commands {
    Check {
        /// Cluster name for the report title; defaults from the cluster
        /// configuration when unset.
        cluster_name: Option<String>,
        /// Namespace scope of the audit; all namespaces when unset.
        namespace: Option<String>,
        /// Namespace the host-agent fleet runs in.
        node_inspector_namespace: String,
        /// Output file path; derived from cluster name and time when
        /// unset.
        output: Option<String>,
        /// Output format.
        format: ReportFormat,
        /// Cluster configuration file path.
        config_file: Option<String>,
        /// Check levels to show, as for `parse_check_level_filter`.
        level: String,
    },
}

/// Report output formats.
#[derive(Debug, Clone, Copy, PartialEq, Eq, Structural)]
pub enum ReportFormat {
    Md,
    Json,
    Csv,
    Html,
}

impl ReportFormat {
    /// The file extension of this format.
    pub fn extension(&self) -> (r: &'static str)
        ensures
            (match self {
                ReportFormat::Md => r@ == "md"@,
                ReportFormat::Json => r@ == "json"@,
                ReportFormat::Csv => r@ == "csv"@,
                ReportFormat::Html => r@ == "html"@,
            }),
    {
        match self {
            ReportFormat::Md => "md",
            ReportFormat::Json => "json",
            ReportFormat::Csv => "csv",
            ReportFormat::Html => "html",
        }
    }
}

/// The audit domains one run can be limited to.
#[derive(Debug, Clone, Copy, PartialEq, Eq, Structural)]
pub enum InspectionType {
    All,
    Nodes,
    Pods,
    Resources,
    Network,
    Storage,
    Security,
    ControlPlane,
    Autoscaling,
    Batch,
    Policies,
    Observability,
    Upgrade,
    Certificates,
}

/// The inspection type an already-lowercased name stands for, if any.
pub open spec fn spec_inspection_type_of(t: Seq<char>) -> Option<InspectionType> {
    if t == "all"@ {
        Some(InspectionType::All)
    } else if t == "nodes"@ {
        Some(InspectionType::Nodes)
    } else if t == "pods"@ {
        Some(InspectionType::Pods)
    } else if t == "resources"@ {
        Some(InspectionType::Resources)
    } else if t == "network"@ {
        Some(InspectionType::Network)
    } else if t == "storage"@ {
        Some(InspectionType::Storage)
    } else if t == "security"@ {
        Some(InspectionType::Security)
    } else if t == "control"@ || t == "control-plane"@ {
        Some(InspectionType::ControlPlane)
    } else if t == "autoscaling"@ || t == "hpa"@ {
        Some(InspectionType::Autoscaling)
    } else if t == "batch"@ || t == "cron"@ {
        Some(InspectionType::Batch)
    } else if t == "policies"@ || t == "policy"@ {
        Some(InspectionType::Policies)
    } else if t == "observability"@ || t == "monitoring"@ {
        Some(InspectionType::Observability)
    } else if t == "upgrade"@ || t == "upgrade-readiness"@ {
        Some(InspectionType::Upgrade)
    } else if t == "certificates"@ || t == "certificate"@ || t == "csr"@ {
        Some(InspectionType::Certificates)
    } else {
        None
    }
}

/// Parses an inspection-type name, ASCII case-insensitively: `Ok` exactly
/// for the registered names, else `Err` naming the unknown input.
pub fn parse_inspection_type(s: &str) -> (r: Result<InspectionType, String>)
    ensures
        (match r {
            Ok(t) => spec_inspection_type_of(spec_to_lower(s@)) == Some(t),
            Err(e) => spec_inspection_type_of(spec_to_lower(s@)) is None && e@
                == "Unknown inspection type: "@ + s@,
        }),
{
    let chars = to_chars(s);
    let t = to_lower(&chars);
    if chars_eq_lit(&t, "all") {
        Ok(InspectionType::All)
    } else if chars_eq_lit(&t, "nodes") {
        Ok(InspectionType::Nodes)
    } else if chars_eq_lit(&t, "pods") {
        Ok(InspectionType::Pods)
    } else if chars_eq_lit(&t, "resources") {
        Ok(InspectionType::Resources)
    } else if chars_eq_lit(&t, "network") {
        Ok(InspectionType::Network)
    } else if chars_eq_lit(&t, "storage") {
        Ok(InspectionType::Storage)
    } else if chars_eq_lit(&t, "security") {
        Ok(InspectionType::Security)
    } else if chars_eq_lit(&t, "control") || chars_eq_lit(&t, "control-plane") {
        Ok(InspectionType::ControlPlane)
    } else if chars_eq_lit(&t, "autoscaling") || chars_eq_lit(&t, "hpa") {
        Ok(InspectionType::Autoscaling)
    } else if chars_eq_lit(&t, "batch") || chars_eq_lit(&t, "cron") {
        Ok(InspectionType::Batch)
    } else if chars_eq_lit(&t, "policies") || chars_eq_lit(&t, "policy") {
        Ok(InspectionType::Policies)
    } else if chars_eq_lit(&t, "observability") || chars_eq_lit(&t, "monitoring") {
        Ok(InspectionType::Observability)
    } else if chars_eq_lit(&t, "upgrade") || chars_eq_lit(&t, "upgrade-readiness") {
        Ok(InspectionType::Upgrade)
    } else if chars_eq_lit(&t, "certificates") || chars_eq_lit(&t, "certificate") || chars_eq_lit(
        &t,
        "csr",
    ) {
        Ok(InspectionType::Certificates)
    } else {
        let mut e = String::new();
        e.append("Unknown inspection type: ");
        e.append(s);
        proof {
            assert(e@ =~= "Unknown inspection type: "@ + s@);
        }
        Err(e)
    }
}

impl core::str::FromStr for InspectionType {
    type Err = String;

    fn from_str(s: &str) -> Result<InspectionType, String> {
        parse_inspection_type(s)
    }
}


/// The separated pieces of a sanitized name: characters a file name
/// cannot hold become dashes, then empty dash-separated pieces drop out.
pub open spec fn spec_sanitize_char(c: char) -> char {
    if c == '/' || c == '\\' || c == ':' || c == '*' || c == '?' || c == '"' || c == '<' || c
        == '>' || c == '|' {
        '-'
    } else {
        c
    }
}

pub open spec fn spec_name_pieces(s: Seq<char>) -> Seq<Seq<char>> {
    crate::text::spec_split_char(
        s.map_values(|c: char| spec_sanitize_char(c)),
        '-',
    ).filter(|p: Seq<char>| p.len() > 0)
}

pub open spec fn spec_join_dash(parts: Seq<Seq<char>>) -> Seq<char>
    decreases parts.len(),
{
    if parts.len() == 0 {
        Seq::empty()
    } else if parts.len() == 1 {
        parts[0]
    } else {
        spec_join_dash(parts.drop_last()) + "-"@ + parts.last()
    }
}

/// The cluster name as it appears in a report file name: invalid
/// characters dashed, dash runs collapsed, `cluster` when nothing
/// remains.
pub open spec fn spec_sanitized_name(s: Seq<char>) -> Seq<char> {
    let joined = spec_join_dash(spec_name_pieces(s));
    if joined.len() == 0 {
        "cluster"@
    } else {
        joined
    }
}

/// Sanitizes a cluster name for use in a file name.
#[verifier::rlimit(100)]
pub fn sanitize_cluster_name(name: &str) -> (r: String)
    ensures
        r@ == spec_sanitized_name(name@),
{
    let chars = to_chars(name);
    let mut mapped: Vec<char> = Vec::new();
    let mut i: usize = 0;
    while i < chars.len()
        invariant
            i <= chars@.len(),
            chars@ == name@,
            mapped@ == name@.take(i as int).map_values(|c: char| spec_sanitize_char(c)),
        decreases chars@.len() - i,
    {
        let c = chars[i];
        let out = if c == '/' || c == '\\' || c == ':' || c == '*' || c == '?' || c == '"' || c
            == '<' || c == '>' || c == '|' {
            '-'
        } else {
            c
        };
        mapped.push(out);
        proof {
            assert(mapped@ =~= name@.take(i + 1int).map_values(
                |c: char| spec_sanitize_char(c),
            ));
        }
        i = i + 1;
    }
    proof {
        assert(name@.take(name@.len() as int) == name@);
    }
    let parts = crate::text::split_char(&mapped, '-');
    let ghost raw = parts.deep_view();
    let mut joined = String::new();
    let mut first = true;
    let mut k: usize = 0;
    proof {
        reveal(Seq::filter);
        assert(raw.take(0int).filter(|p: Seq<char>| p.len() > 0) =~= Seq::<Seq<char>>::empty());
    }
    while k < parts.len()
        invariant
            k <= parts@.len(),
            raw == parts.deep_view(),
            raw.len() == parts@.len(),
            joined@ == spec_join_dash(raw.take(k as int).filter(|p: Seq<char>| p.len() > 0)),
            first == (raw.take(k as int).filter(|p: Seq<char>| p.len() > 0).len() == 0),
        decreases parts@.len() - k,
    {
        proof {
            reveal(Seq::filter);
            let fp = |p: Seq<char>| p.len() > 0;
            assert(raw.take(k + 1int).drop_last() == raw.take(k as int));
            assert(raw.take(k + 1int).last() == raw[k as int]);
            assert(parts@[k as int]@ == raw[k as int]);
            assert(raw.take(k + 1int).filter(fp) == if fp(raw[k as int]) {
                raw.take(k as int).filter(fp).push(raw[k as int])
            } else {
                raw.take(k as int).filter(fp)
            });
        }
        if parts[k].len() > 0 {
            if !first {
                joined.append("-");
            }
            let piece = crate::text::string_from_chars(&parts[k]);
            joined.append(piece.as_str());
            first = false;
            proof {
                let fp = |p: Seq<char>| p.len() > 0;
                let kept_prev = raw.take(k as int).filter(fp);
                let kept = raw.take(k + 1int).filter(fp);
                assert(kept == kept_prev.push(raw[k as int]));
                assert(kept.drop_last() == kept_prev);
                assert(kept.last() == raw[k as int]);
                if kept.len() == 1 {
                    assert(joined@ =~= spec_join_dash(kept));
                } else {
                    assert(joined@ =~= spec_join_dash(kept));
                }
            }
        }
        k = k + 1;
    }
    proof {
        assert(raw.take(parts@.len() as int) == raw);
    }
    if first {
        "cluster".to_owned()
    } else {
        joined
    }
}

/// The report file path: the given path, or a derived
/// `name-kubernetes-inspection-report-time.ext` one; a path without an
/// extension (or ending in dots) gets the format's extension, dots
/// trimmed.
pub open spec fn spec_output_path(
    path: Option<Seq<char>>,
    cluster_name: Seq<char>,
    timestamp: Seq<char>,
    ext: Seq<char>,
) -> Seq<char> {
    let chosen = match path {
        Some(p) => p,
        None => spec_sanitized_name(cluster_name) + "-kubernetes-inspection-report-"@ + timestamp
            + "."@ + ext,
    };
    if (chosen.len() > 0 && chosen.last() == '.') || crate::text::spec_find_char(chosen, '.')
        < 0 {
        crate::text::spec_trim_back(chosen, crate::text::TrimClass::Quote('.')) + "."@ + ext
    } else {
        chosen
    }
}

/// Picks the output path for a report file.
pub fn output_path_with_extension(
    path: Option<String>,
    cluster_name: &str,
    timestamp: &str,
    format: ReportFormat,
) -> (r: String)
    ensures
        r@ == spec_output_path(
            path.deep_view(),
            cluster_name@,
            timestamp@,
            (match format {
                ReportFormat::Md => "md"@,
                ReportFormat::Json => "json"@,
                ReportFormat::Csv => "csv"@,
                ReportFormat::Html => "html"@,
            }),
        ),
{
    let ext = format.extension();
    let chosen: String = match path {
        Some(p) => p,
        None => {
            let safe = sanitize_cluster_name(cluster_name);
            let head = crate::text::cat5(
                safe.as_str(),
                "-kubernetes-inspection-report-",
                timestamp,
                ".",
                ext,
            );
            head
        },
    };
    let chars = to_chars(chosen.as_str());
    let n = chars.len();
    proof {
        assert(chars@.skip(0int) == chars@);
    }
    let no_dot = match crate::text::find_char_from(&chars, '.', 0) {
        Some(_) => false,
        None => true,
    };
    let ends_dot = n > 0 && chars[n - 1] == '.';
    if ends_dot || no_dot {
        // strip every trailing dot
        let mut b: usize = n;
        while b > 0 && chars[b - 1] == '.'
            invariant
                b <= n,
                n == chars@.len(),
                forall|j: int| b <= j < n ==> chars@[j] == '.',
            decreases b,
        {
            b = b - 1;
        }
        proof {
            crate::text::lemma_trim_back_dots(chars@, b as int);
        }
        let head = crate::text::slice_range(&chars, 0, b);
        let head_text = crate::text::string_from_chars(&head);
        proof {
            assert(head@ =~= chars@.take(b as int));
        }
        crate::text::cat3(head_text.as_str(), ".", ext)
    } else {
        chosen
    }
}

} // verus!

//! Certificates unit: TLS certificates read out of cluster secrets, and
//! certificate signing requests.

use vstd::prelude::*;

use crate::checks::score_from_counts;
use crate::inspections::support::{
    check_row, issue_row, lemma_filter_le, lemma_filter_take_step, spec_check_row,
    spec_flat_issues, spec_issue, spec_flat_map,
};
use crate::text::{cat3, cat4, cat8, slice_range, spec_trim_ws, to_chars, trim_ws, u64_string, string_from_chars};
use crate::types::{
    CertificateExpiryRow, CertificateExpiryRowView, CheckResult, Issue, IssueSeverity, IssueView,
};

verus! {

/// Names the certificate list x509 parsing reads out of a PEM blob:
/// subject, not-after display text and not-after epoch seconds per
/// certificate; a pure function of the bytes.
pub uninterp spec fn tls_certs_of(pem: Seq<u8>) -> Seq<(Seq<char>, Seq<char>, i64)>;

/// Relies on x509-parser's `Pem::iter_from_buffer` and `parse_x509`:
/// each parseable certificate of the blob yields its subject line, its
/// not-after validity as display text, and the same instant in epoch
/// seconds — all functions of the bytes alone; unparseable entries are
/// skipped.
#[verifier::external_body]
pub fn parse_tls_certificates(pem: &Vec<u8>) -> (r: Vec<(String, String, i64)>)
    ensures
        r.deep_view() == tls_certs_of(pem@),
{
    let mut out: Vec<(String, String, i64)> = Vec::new();
    for p in x509_parser::pem::Pem::iter_from_buffer(pem.as_slice()).flatten() {
        if let Ok(x509) = p.parse_x509() {
            let subject = x509.subject().to_string();
            let validity = x509.validity();
            let display = format!("{}", validity.not_after);
            let epoch = validity.not_after.timestamp();
            out.push((subject, display, epoch));
        }
    }
    out
}

/// What the rules read of one TLS certificate, joined with its secret.
#[derive(Debug)]
pub struct CertFacts {
    pub secret_namespace: String,
    pub secret_name: String,
    pub subject: String,
    pub expiry_display: String,
    pub not_after_epoch: i64,
}

pub struct CertFactsView {
    pub secret_namespace: Seq<char>,
    pub secret_name: Seq<char>,
    pub subject: Seq<char>,
    pub expiry_display: Seq<char>,
    pub not_after_epoch: i64,
}

impl View for CertFacts {
    type V = CertFactsView;

    open spec fn view(&self) -> CertFactsView {
        CertFactsView {
            secret_namespace: self.secret_namespace@,
            secret_name: self.secret_name@,
            subject: self.subject@,
            expiry_display: self.expiry_display@,
            not_after_epoch: self.not_after_epoch,
        }
    }
}

impl DeepView for CertFacts {
    type V = CertFactsView;

    open spec fn deep_view(&self) -> CertFactsView {
        self.view()
    }
}

/// What the rules read of one signing request.
#[derive(Debug)]
pub struct CsrFacts {
    pub name: String,
    pub has_approved: bool,
    pub has_denied: bool,
    pub has_failed: bool,
}

pub struct CsrFactsView {
    pub name: Seq<char>,
    pub has_approved: bool,
    pub has_denied: bool,
    pub has_failed: bool,
}

impl View for CsrFacts {
    type V = CsrFactsView;

    open spec fn view(&self) -> CsrFactsView {
        CsrFactsView {
            name: self.name@,
            has_approved: self.has_approved,
            has_denied: self.has_denied,
            has_failed: self.has_failed,
        }
    }
}

impl DeepView for CsrFacts {
    type V = CsrFactsView;

    open spec fn deep_view(&self) -> CsrFactsView {
        self.view()
    }
}

/// Days until expiry, truncated toward zero: negative once expired.
pub open spec fn spec_days_until(not_after: i64, now: i64) -> int {
    let d = not_after - now;
    if d >= 0 {
        d / 86400
    } else {
        -((-d) / 86400)
    }
}

/// The subject as the table shows it: trimmed, and cut to 57 characters
/// plus an ellipsis when longer than 60.
pub open spec fn spec_subject_short(s: Seq<char>) -> Seq<char> {
    let t = spec_trim_ws(s);
    if t.len() > 60 {
        t.take(57) + "..."@
    } else {
        t
    }
}

/// The expiry row one certificate yields.
pub open spec fn spec_cert_row(f: CertFactsView, now: i64) -> CertificateExpiryRowView {
    CertificateExpiryRowView {
        secret_namespace: f.secret_namespace,
        secret_name: f.secret_name,
        subject_or_cn: spec_subject_short(f.subject),
        expiry_utc: f.expiry_display,
        days_until_expiry: spec_days_until(f.not_after_epoch, now) as i64,
    }
}

pub open spec fn spec_cert_expired(f: CertFactsView, now: i64) -> bool {
    spec_days_until(f.not_after_epoch, now) < 0
}

pub open spec fn spec_cert_in_30(f: CertFactsView, now: i64) -> bool {
    0 <= spec_days_until(f.not_after_epoch, now) <= 30
}

pub open spec fn spec_cert_in_90(f: CertFactsView, now: i64) -> bool {
    30 < spec_days_until(f.not_after_epoch, now) <= 90
}

/// The TLS check score under the expiry buckets.
pub open spec fn spec_tls_score(expired: int, in30: int, in90: int) -> u64 {
    if expired > 0 {
        40_000
    } else if in30 > 0 {
        70_000
    } else if in90 > 0 {
        85_000
    } else {
        100_000
    }
}

/// The findings one signing request yields.
pub open spec fn spec_csr_issues(f: CsrFactsView) -> Seq<IssueView> {
    if f.has_denied || f.has_failed {
        seq![
            spec_issue(
                IssueSeverity::Warning,
                "Certificates"@,
                "CSR "@ + f.name + " is "@ + (if f.has_denied {
                    "Denied"@
                } else {
                    "Failed"@
                }),
                Some(f.name),
                "Review and clean up denied/failed CSRs; re-issue if needed."@,
                "CERT-001"@,
            ),
        ]
    } else if !f.has_approved {
        seq![
            spec_issue(
                IssueSeverity::Info,
                "Certificates"@,
                "CSR "@ + f.name + " is Pending approval"@,
                Some(f.name),
                "Approve or deny pending CSRs (e.g. kubectl certificate approve/deny). Cluster component cert expiry (apiserver/etcd/kubelet) must be checked on nodes (e.g. kubeadm cert check-expiry)."@,
                "CERT-001"@,
            ),
        ]
    } else {
        Seq::empty()
    }
}

pub open spec fn spec_csr_bad(f: CsrFactsView) -> bool {
    f.has_denied || f.has_failed || !f.has_approved
}

pub struct CertificateClassification {
    pub checks: Vec<CheckResult>,
    pub issues: Vec<Issue>,
    pub certificate_expiries: Vec<CertificateExpiryRow>,
}

/// Classifies the signing requests and TLS certificates at the clock
/// `now_epoch`: the CSR check, the expiry check with its table rows, and
/// the CSR findings.
pub fn classify_certificates(
    csrs: &Vec<CsrFacts>,
    certs: &Vec<CertFacts>,
    now_epoch: i64,
) -> (r: CertificateClassification)
    ensures
        r.issues.deep_view() == spec_flat_issues(
            csrs.deep_view(),
            |f: CsrFactsView| spec_csr_issues(f),
        ),
        r.certificate_expiries.deep_view() == certs.deep_view().map_values(
            |f: CertFactsView| spec_cert_row(f, now_epoch),
        ),
        r.checks@.len() == 2,
        r.checks.deep_view()[0] == spec_check_row(
            "CertificateSigningRequests"@,
            "Checks CSR status (Pending/Approved/Denied/Failed). Component cert expiry (apiserver/etcd/kubelet) requires node-level checks."@,
            crate::checks::spec_score_from_counts(
                csrs.deep_view().len() as int - csrs.deep_view().filter(
                    |f: CsrFactsView| spec_csr_bad(f),
                ).len() as int,
                csrs.deep_view().len() as int,
                100_000,
            ) as u64,
            crate::text::spec_u64_chars(csrs.deep_view().len() as int) + " total, "@
                + crate::text::spec_u64_chars(
                csrs.deep_view().filter(
                    |f: CsrFactsView| !f.has_denied && !f.has_failed && !f.has_approved,
                ).len() as int,
            ) + " pending, "@ + crate::text::spec_u64_chars(
                csrs.deep_view().filter(
                    |f: CsrFactsView| f.has_denied || f.has_failed,
                ).len() as int,
            ) + " denied/failed"@,
            "Review CSRs; approve or clean up as needed. For apiserver/etcd/kubelet certificate expiry, run kubeadm cert check-expiry on control-plane nodes."@,
            100_000,
        ),
        r.checks.deep_view()[1] == spec_check_row(
            "TLS certificate expiry"@,
            "Lists TLS certificates from Secrets (type kubernetes.io/tls) with expiry and days until expiry. Control-plane certs (apiserver/etcd/kubelet) require node-level checks (e.g. kubeadm cert check-expiry)."@,
            spec_tls_score(
                certs.deep_view().filter(|f: CertFactsView| spec_cert_expired(f, now_epoch)).len() as int,
                certs.deep_view().filter(|f: CertFactsView| spec_cert_in_30(f, now_epoch)).len() as int,
                certs.deep_view().filter(|f: CertFactsView| spec_cert_in_90(f, now_epoch)).len() as int,
            ),
            (if certs.deep_view().len() == 0 {
                "No TLS secrets found."@
            } else {
                crate::text::spec_u64_chars(certs.deep_view().len() as int)
                    + " certificate(s); "@ + crate::text::spec_u64_chars(
                    certs.deep_view().filter(
                        |f: CertFactsView| spec_cert_in_90(f, now_epoch),
                    ).len() as int,
                ) + " expiring in 90 days, "@ + crate::text::spec_u64_chars(
                    certs.deep_view().filter(
                        |f: CertFactsView| spec_cert_in_30(f, now_epoch),
                    ).len() as int,
                ) + " in 30 days, "@ + crate::text::spec_u64_chars(
                    certs.deep_view().filter(
                        |f: CertFactsView| spec_cert_expired(f, now_epoch),
                    ).len() as int,
                ) + " expired."@
            }),
            "Renew expiring or expired TLS certificates. Update the Secret and restart workloads."@,
            (if certs.deep_view().filter(
                |f: CertFactsView| spec_cert_in_30(f, now_epoch),
            ).len() > 0 || certs.deep_view().filter(
                |f: CertFactsView| spec_cert_expired(f, now_epoch),
            ).len() > 0 {
                200_000u64
            } else {
                0u64
            }),
        ),
{
    let ghost cv = csrs.deep_view();
    let ghost tv = certs.deep_view();
    let mut issues: Vec<Issue> = Vec::new();

    // signing requests
    let mut pending: u64 = 0;
    let mut denied_failed: u64 = 0;
    let mut bad: u64 = 0;
    let mut i: usize = 0;
    proof {
        reveal(Seq::filter);
        assert(cv.take(0int) =~= Seq::<CsrFactsView>::empty());
    }
    while i < csrs.len()
        invariant
            i <= csrs@.len(),
            cv == csrs.deep_view(),
            cv.len() == csrs@.len(),
            issues.deep_view() == spec_flat_issues(
                cv.take(i as int),
                |f: CsrFactsView| spec_csr_issues(f),
            ),
            pending == cv.take(i as int).filter(
                |f: CsrFactsView| !f.has_denied && !f.has_failed && !f.has_approved,
            ).len(),
            denied_failed == cv.take(i as int).filter(
                |f: CsrFactsView| f.has_denied || f.has_failed,
            ).len(),
            bad == cv.take(i as int).filter(|f: CsrFactsView| spec_csr_bad(f)).len(),
            pending <= i && denied_failed <= i && bad <= i,
        decreases csrs@.len() - i,
    {
        proof {
            reveal(Seq::filter);
            assert(cv.take(i + 1int).drop_last() == cv.take(i as int));
            assert(cv.take(i + 1int).last() == cv[i as int]);
            assert(csrs@[i as int]@ == cv[i as int]);
            lemma_filter_take_step(
                cv,
                |f: CsrFactsView| !f.has_denied && !f.has_failed && !f.has_approved,
                i as int,
            );
            lemma_filter_take_step(cv, |f: CsrFactsView| f.has_denied || f.has_failed, i as int);
            lemma_filter_take_step(cv, |f: CsrFactsView| spec_csr_bad(f), i as int);
        }
        let f = &csrs[i];
        let ghost pre = issues.deep_view();
        if f.has_denied || f.has_failed {
            denied_failed = denied_failed + 1;
            bad = bad + 1;
            let row = issue_row(
                IssueSeverity::Warning,
                "Certificates",
                cat4(
                    "CSR ",
                    f.name.as_str(),
                    " is ",
                    if f.has_denied {
                        "Denied"
                    } else {
                        "Failed"
                    },
                ),
                Some(f.name.clone()),
                "Review and clean up denied/failed CSRs; re-issue if needed.",
                "CERT-001",
            );
            let ghost rv = row@;
            issues.push(row);
            proof {
                assert(issues.deep_view() =~= pre.push(rv));
                assert(rv == spec_csr_issues(cv[i as int])[0]);
                assert(spec_csr_issues(cv[i as int]) =~= seq![rv]);
            }
        } else if !f.has_approved {
            pending = pending + 1;
            bad = bad + 1;
            let row = issue_row(
                IssueSeverity::Info,
                "Certificates",
                cat3("CSR ", f.name.as_str(), " is Pending approval"),
                Some(f.name.clone()),
                "Approve or deny pending CSRs (e.g. kubectl certificate approve/deny). Cluster component cert expiry (apiserver/etcd/kubelet) must be checked on nodes (e.g. kubeadm cert check-expiry).",
                "CERT-001",
            );
            let ghost rv = row@;
            issues.push(row);
            proof {
                assert(issues.deep_view() =~= pre.push(rv));
                assert(rv == spec_csr_issues(cv[i as int])[0]);
                assert(spec_csr_issues(cv[i as int]) =~= seq![rv]);
            }
        }
        proof {
            assert(issues.deep_view() =~= spec_flat_issues(
                cv.take(i + 1int),
                |f: CsrFactsView| spec_csr_issues(f),
            ));
        }
        i = i + 1;
    }
    proof {
        assert(cv.take(csrs@.len() as int) == cv);
        lemma_filter_le(cv, |f: CsrFactsView| spec_csr_bad(f));
    }
    let total_csrs = csrs.len() as u64;
    let csr_score = score_from_counts(total_csrs - bad, total_csrs, 100_000);
    let d0 = {
        let tt = u64_string(total_csrs);
        let pp = u64_string(pending);
        let dd = u64_string(denied_failed);
        crate::text::cat6(
            tt.as_str(),
            " total, ",
            pp.as_str(),
            " pending, ",
            dd.as_str(),
            " denied/failed",
        )
    };
    let c0 = check_row(
        "CertificateSigningRequests",
        "Checks CSR status (Pending/Approved/Denied/Failed). Component cert expiry (apiserver/etcd/kubelet) requires node-level checks.",
        csr_score,
        d0,
        "Review CSRs; approve or clean up as needed. For apiserver/etcd/kubelet certificate expiry, run kubeadm cert check-expiry on control-plane nodes.",
        100_000,
    );

    // TLS certificates
    let mut rows: Vec<CertificateExpiryRow> = Vec::new();
    let mut expired: u64 = 0;
    let mut in30: u64 = 0;
    let mut in90: u64 = 0;
    let mut k: usize = 0;
    proof {
        reveal(Seq::filter);
        assert(tv.take(0int) =~= Seq::<CertFactsView>::empty());
        assert(rows.deep_view() =~= tv.take(0int).map_values(
            |f: CertFactsView| spec_cert_row(f, now_epoch),
        ));
    }
    while k < certs.len()
        invariant
            k <= certs@.len(),
            tv == certs.deep_view(),
            tv.len() == certs@.len(),
            rows.deep_view() == tv.take(k as int).map_values(
                |f: CertFactsView| spec_cert_row(f, now_epoch),
            ),
            expired == tv.take(k as int).filter(
                |f: CertFactsView| spec_cert_expired(f, now_epoch),
            ).len(),
            in30 == tv.take(k as int).filter(
                |f: CertFactsView| spec_cert_in_30(f, now_epoch),
            ).len(),
            in90 == tv.take(k as int).filter(
                |f: CertFactsView| spec_cert_in_90(f, now_epoch),
            ).len(),
            expired <= k && in30 <= k && in90 <= k,
        decreases certs@.len() - k,
    {
        proof {
            reveal(Seq::filter);
            assert(tv.take(k + 1int).drop_last() == tv.take(k as int));
            assert(tv.take(k + 1int).last() == tv[k as int]);
            assert(certs@[k as int]@ == tv[k as int]);
            lemma_filter_take_step(
                tv,
                |f: CertFactsView| spec_cert_expired(f, now_epoch),
                k as int,
            );
            lemma_filter_take_step(tv, |f: CertFactsView| spec_cert_in_30(f, now_epoch), k as int);
            lemma_filter_take_step(tv, |f: CertFactsView| spec_cert_in_90(f, now_epoch), k as int);
        }
        let f = &certs[k];
        let days = days_until(f.not_after_epoch, now_epoch);
        if days < 0 {
            expired = expired + 1;
        } else if days <= 30 {
            in30 = in30 + 1;
        } else if days <= 90 {
            in90 = in90 + 1;
        }
        let subject_short = {
            let chars = to_chars(f.subject.as_str());
            let t = trim_ws(&chars);
            if t.len() > 60 {
                let head = slice_range(&t, 0, 57);
                let head_text = string_from_chars(&head);
                proof {
                    assert(head@ =~= spec_trim_ws(f@.subject).take(57));
                }
                crate::text::cat2(head_text.as_str(), "...")
            } else {
                string_from_chars(&t)
            }
        };
        let row = CertificateExpiryRow {
            secret_namespace: f.secret_namespace.clone(),
            secret_name: f.secret_name.clone(),
            subject_or_cn: subject_short,
            expiry_utc: f.expiry_display.clone(),
            days_until_expiry: days,
        };
        let ghost rv = row@;
        let ghost pre = rows.deep_view();
        rows.push(row);
        proof {
            assert(rows.deep_view() =~= pre.push(rv));
            assert(rv == spec_cert_row(tv[k as int], now_epoch));
            assert(rows.deep_view() =~= tv.take(k + 1int).map_values(
                |f: CertFactsView| spec_cert_row(f, now_epoch),
            ));
        }
        k = k + 1;
    }
    proof {
        assert(tv.take(certs@.len() as int) == tv);
    }

    let total_certs = certs.len() as u64;
    let tls_score: u64 = if expired > 0 {
        40_000
    } else if in30 > 0 {
        70_000
    } else if in90 > 0 {
        85_000
    } else {
        100_000
    };
    let d1 = if total_certs == 0 {
        "No TLS secrets found.".to_owned()
    } else {
        let tt = u64_string(total_certs);
        let n90 = u64_string(in90);
        let n30 = u64_string(in30);
        let ne = u64_string(expired);
        cat8(
            tt.as_str(),
            " certificate(s); ",
            n90.as_str(),
            " expiring in 90 days, ",
            n30.as_str(),
            " in 30 days, ",
            ne.as_str(),
            " expired.",
        )
    };
    let advise: u64 = if in30 > 0 || expired > 0 {
        200_000
    } else {
        0
    };
    let c1 = check_row(
        "TLS certificate expiry",
        "Lists TLS certificates from Secrets (type kubernetes.io/tls) with expiry and days until expiry. Control-plane certs (apiserver/etcd/kubelet) require node-level checks (e.g. kubeadm cert check-expiry).",
        tls_score,
        d1,
        "Renew expiring or expired TLS certificates. Update the Secret and restart workloads.",
        advise,
    );

    let mut checks: Vec<CheckResult> = Vec::new();
    checks.push(c0);
    checks.push(c1);
    CertificateClassification { checks, issues, certificate_expiries: rows }
}

/// Days until the instant, truncated toward zero.
fn days_until(not_after: i64, now: i64) -> (r: i64)
    ensures
        r == spec_days_until(not_after, now),
        r < 0 <==> spec_days_until(not_after, now) < 0,
{
    let d: i128 = (not_after as i128) - (now as i128);
    if d >= 0 {
        (d / 86400) as i64
    } else {
        (-((-d) / 86400)) as i64
    }
}

} // verus!

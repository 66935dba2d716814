//! Requesting an ACME certificate from a node: what is sent, what the log
//! shows while and after it runs, and what the draft keeps of the answer.

use vstd::prelude::*;
use vstd::string::*;
use crate::certs::{certmagic_certificate_paths, certmagic_paths};
use crate::editing::{find_certificate, first_certificate_with_id};
use crate::model::{CertificateDraft, NodeConfigDraft, NodeConfigDraftView};
use crate::sync::{sync_draft, synced};
use crate::text::{copy_str, eq_ascii_ci, eq_ignore_ascii_case, join, join_with, texts};

verus! {

/// What the node is asked to do for a certificate.
pub struct AcmeIssueRequest {
    pub master_key: String,
    pub email: String,
    pub domain: String,
    pub challenge_type: String,
    pub ca: String,
    pub port: u32,
    pub certificate_path: String,
    pub key_path: String,
}

/// What the node answers, or what the log shows of a request.
pub struct AcmeIssueResponse {
    pub success: bool,
    pub error: String,
    pub logs: Vec<String>,
    pub expiry_time: i64,
}

/// The port the challenge of a certificate is answered on: the HTTP port
/// for an HTTP challenge, the ACME port otherwise.
pub open spec fn challenge_port(c: CertificateDraft) -> u32 {
    if eq_ascii_ci(c.acme_type@, "HTTP"@) {
        c.acme_http_port
    } else {
        c.acme_port
    }
}

/// The port the challenge of `certificate` is answered on (see
/// `challenge_port`).
pub fn acme_challenge_port(certificate: &CertificateDraft) -> (r: u32)
    ensures
        r == challenge_port(*certificate),
{
    if eq_ignore_ascii_case(certificate.acme_type.as_str(), "HTTP") {
        certificate.acme_http_port
    } else {
        certificate.acme_port
    }
}

/// The request that issues `certificate` on a node with the key
/// `master_key`: its e-mail, domain, challenge type, authority, challenge
/// port and file paths.
pub fn acme_issue_request(certificate: &CertificateDraft, master_key: &str) -> (r: AcmeIssueRequest)
    ensures
        r.master_key@ == master_key@,
        r.email == certificate.acme_email,
        r.domain == certificate.acme_domain,
        r.challenge_type == certificate.acme_type,
        r.ca == certificate.acme_ca,
        r.port == challenge_port(*certificate),
        r.certificate_path == certificate.certificate_path,
        r.key_path == certificate.key_path,
{
    AcmeIssueRequest {
        master_key: copy_str(master_key),
        email: certificate.acme_email.clone(),
        domain: certificate.acme_domain.clone(),
        challenge_type: certificate.acme_type.clone(),
        ca: certificate.acme_ca.clone(),
        port: acme_challenge_port(certificate),
        certificate_path: certificate.certificate_path.clone(),
        key_path: certificate.key_path.clone(),
    }
}

/// The log line shown while a request runs.
pub open spec fn sending_line() -> Seq<char> {
    "Sending ACME request to node..."@
}

/// What the log shows while a request runs: no success, no error, the
/// sending line.
pub fn acme_pending_response() -> (r: AcmeIssueResponse)
    ensures
        !r.success,
        r.error@.len() == 0,
        r.logs@.len() == 1,
        r.logs@[0]@ == sending_line(),
        r.expiry_time == 0,
{
    let mut logs: Vec<String> = Vec::new();
    logs.push(copy_str("Sending ACME request to node..."));
    AcmeIssueResponse { success: false, error: String::new(), logs, expiry_time: 0 }
}

/// What the log shows when the request could not be made: the error, the
/// sending line and the failure line.
pub fn acme_failure_response(error: &str) -> (r: AcmeIssueResponse)
    ensures
        !r.success,
        r.error@ == error@,
        r.logs@.len() == 2,
        r.logs@[0]@ == sending_line(),
        r.logs@[1]@ == "Request failed: "@ + error@,
        r.expiry_time == 0,
{
    let mut logs: Vec<String> = Vec::new();
    logs.push(copy_str("Sending ACME request to node..."));
    let mut line = copy_str("Request failed: ");
    line.append(error);
    logs.push(line);
    AcmeIssueResponse { success: false, error: copy_str(error), logs, expiry_time: 0 }
}

/// The text of the request log: its lines, one per line, or a waiting
/// line when there is none yet.
pub fn acme_log_text(logs: &Vec<String>) -> (r: String)
    ensures
        r@ == if logs@.len() == 0 {
            "Waiting for node response..."@
        } else {
            join_with(texts(logs@), "\n"@)
        },
{
    if logs.len() == 0 {
        copy_str("Waiting for node response...")
    } else {
        join(logs, "\n")
    }
}

/// The status line of the request log.
pub fn acme_status_line(loading: bool, success: bool) -> (r: &'static str)
    ensures
        r@ == if loading {
            "Request in progress..."@
        } else if success {
            "Certificate request finished successfully."@
        } else {
            "Certificate request failed."@
        },
{
    if loading {
        "Request in progress..."
    } else if success {
        "Certificate request finished successfully."
    } else {
        "Certificate request failed."
    }
}

/// The texts of the ACME log popup.
pub struct AcmeLogsView {
    pub status: String,
    pub error: Option<String>,
    pub log_text: String,
}

/// What the ACME log popup shows: the status line, the error when there is
/// one, and the log text (see `acme_status_line` and `acme_log_text`).
pub fn acme_logs_popup(logs: &Vec<String>, loading: bool, success: bool, error: &str) -> (r: AcmeLogsView)
    ensures
        r.status@ == (if loading {
            "Request in progress..."@
        } else if success {
            "Certificate request finished successfully."@
        } else {
            "Certificate request failed."@
        }),
        error@.len() == 0 ==> r.error is None,
        error@.len() > 0 ==> (r.error matches Some(e) && e@ == error@),
        r.log_text@ == (if logs@.len() == 0 {
            "Waiting for node response..."@
        } else {
            join_with(texts(logs@), "\n"@)
        }),
{
    let status = copy_str(acme_status_line(loading, success));
    let shown = if error.unicode_len() == 0 {
        None
    } else {
        Some(copy_str(error))
    };
    AcmeLogsView { status, error: shown, log_text: acme_log_text(logs) }
}

/// `p` is `m` with the certificate with the id `id` issued: its files are
/// those certmagic writes for its authority and domain (`certmagic_paths`),
/// and its expiry time is `expiry` when that is positive; `m` unchanged
/// when no certificate has that id.
pub open spec fn with_certificate_issued(
    m: NodeConfigDraftView,
    p: NodeConfigDraftView,
    id: Seq<char>,
    expiry: i64,
) -> bool {
    if exists|i: int| first_certificate_with_id(m.certificates, id, i) {
        let i = choose|i: int| first_certificate_with_id(m.certificates, id, i);
        let c = m.certificates[i];
        let n = p.certificates[i];
        let (cert_path, key_path) = certmagic_paths(c.acme_ca@, c.acme_domain@);
        &&& p.certificates.len() == m.certificates.len()
        &&& forall|k: int|
            0 <= k < m.certificates.len() && k != i ==> #[trigger] p.certificates[k]
                == m.certificates[k]
        &&& n.certificate_path@ == cert_path
        &&& n.key_path@ == key_path
        &&& n == CertificateDraft {
            certificate_path: n.certificate_path,
            key_path: n.key_path,
            expiry_time: if expiry > 0 {
                expiry
            } else {
                c.expiry_time
            },
            ..c
        }
        &&& p == NodeConfigDraftView { certificates: p.certificates, ..m }
    } else {
        p == m
    }
}

/// Takes the node's answer to a request for the certificate with the id
/// `certificate_id` into the draft: the draft is synced, and that
/// certificate gets the files certmagic writes and, when the answer gives
/// one, the expiry time.
pub fn apply_acme_result(draft: &mut NodeConfigDraft, certificate_id: &str, expiry_time: i64)
    ensures
        exists|mid: NodeConfigDraftView|
            synced(old(draft)@, mid) && #[trigger] with_certificate_issued(
                mid,
                final(draft)@,
                certificate_id@,
                expiry_time,
            ),
{
    let ghost start = draft@;
    sync_draft(draft);
    let ghost mid = draft@;
    match find_certificate(&draft.certificates, certificate_id) {
        Some(i) => {
            proof {
                assert forall|j: int| first_certificate_with_id(mid.certificates, certificate_id@, j)
                    implies j == i by {
                    if j < i {
                        assert(mid.certificates[j].id@ == certificate_id@);
                    } else if i < j {
                        assert(mid.certificates[i as int].id@ == certificate_id@);
                    }
                }
                assert(first_certificate_with_id(mid.certificates, certificate_id@, i as int));
            }
            let mut c = draft.certificates[i].duplicate();
            let (cert_path, key_path) = certmagic_certificate_paths(
                c.acme_ca.as_str(),
                c.acme_domain.as_str(),
            );
            c.certificate_path = cert_path;
            c.key_path = key_path;
            if expiry_time > 0 {
                c.expiry_time = expiry_time;
            }
            draft.certificates.set(i, c);
        },
        None => {},
    }
    assert(with_certificate_issued(mid, draft@, certificate_id@, expiry_time));
}

} // verus!

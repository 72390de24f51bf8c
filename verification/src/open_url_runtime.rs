//! Asking the supervisor to open a URL.

use crate::error::{ErrorView, NonoError};
use crate::text::{concat2, copy_str, decimal, u64_to_string};
use vstd::prelude::*;

verus! {

/// A request to open a URL.
#[derive(Debug)]
pub struct UrlOpenRequest {
    pub request_id: String,
    pub url: String,
    pub child_pid: u32,
    pub session_id: String,
}

/// The request of a process.
pub fn url_open_request(url: &str, process: u32) -> (r: UrlOpenRequest)
    ensures
        r.request_id@ == "url-"@ + decimal(process as nat),
        r.url@ == url@,
        r.child_pid == process,
        r.session_id@ == Seq::<char>::empty(),
{
    let id = u64_to_string(process as u64);
    UrlOpenRequest {
        request_id: concat2("url-", id.as_str()),
        url: copy_str(url),
        child_pid: process,
        session_id: String::new(),
    }
}

/// Where the supervisor listens; a failure outside a sandbox.
pub fn supervisor_path(variable: Option<String>) -> (r: Result<String, NonoError>)
    ensures
        match variable {
            Some(p) => r == Ok::<String, NonoError>(p),
            None => r is Err && (r->Err_0)@ == ErrorView::SandboxInit(
                "NONO_SUPERVISOR_PATH not set. open-url-helper must be invoked inside a nono sandbox."@,
            ),
        },
{
    match variable {
        Some(p) => Ok(p),
        None => Err(
            NonoError::SandboxInit(
                copy_str(
                    "NONO_SUPERVISOR_PATH not set. open-url-helper must be invoked inside a nono sandbox.",
                ),
            ),
        ),
    }
}

/// What the supervisor answered.
#[derive(Debug)]
pub enum SupervisorReply {
    UrlOpened { success: bool, error: Option<String> },
    /// Something else; how it reads.
    Other(String),
}

pub open spec fn reply_failure(reply: SupervisorReply) -> Option<ErrorView> {
    match reply {
        SupervisorReply::UrlOpened { success, error } => if success {
            None
        } else {
            Some(
                ErrorView::SandboxInit(
                    "Supervisor denied URL open: "@ + (match error {
                        Some(m) => m@,
                        None => "Unknown error"@,
                    }),
                ),
            )
        },
        SupervisorReply::Other(text) => Some(
            ErrorView::SandboxInit("Unexpected supervisor response: "@ + text@),
        ),
    }
}

/// What the supervisor's answer means.
pub fn run_open_url_helper(reply: &SupervisorReply) -> (r: Result<(), NonoError>)
    ensures
        match r {
            Ok(()) => reply_failure(*reply) is None,
            Err(e) => reply_failure(*reply) == Some(e@),
        },
{
    match reply {
        SupervisorReply::UrlOpened { success, error } => {
            if *success {
                return Ok(());
            }
            let why = match error {
                Some(m) => m.as_str(),
                None => "Unknown error",
            };
            Err(NonoError::SandboxInit(concat2("Supervisor denied URL open: ", why)))
        },
        SupervisorReply::Other(text) => Err(
            NonoError::SandboxInit(concat2("Unexpected supervisor response: ", text.as_str())),
        ),
    }
}

/// A URL was opened exactly where the supervisor says so; its refusal is told with its reason.
pub proof fn law_replies(reply: SupervisorReply)
    ensures
        reply_failure(reply) is None <==> reply is UrlOpened && reply->success,
        reply is UrlOpened && !reply->success && reply->error is Some ==> reply_failure(reply)
            == Some(
            ErrorView::SandboxInit("Supervisor denied URL open: "@ + (reply->error->0)@),
        ),
        reply is UrlOpened && !reply->success && reply->error is None ==> reply_failure(reply)
            == Some(ErrorView::SandboxInit("Supervisor denied URL open: "@ + "Unknown error"@)),
        reply is Other ==> reply_failure(reply) == Some(
            ErrorView::SandboxInit("Unexpected supervisor response: "@ + (reply->Other_0)@),
        ),
{
}

} // verus!

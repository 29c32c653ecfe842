use vstd::prelude::*;
use vstd::string::StringExecFns;

verus! {

/// How a check for a newer release ended.
pub enum UpdateCheck {
    /// A newer binary was downloaded and put in place.
    Updated,
    /// The running version is the latest.
    UpToDate,
    /// The check failed with this error.
    Failed(String),
    /// The task running the check panicked with this error.
    Panicked(String),
}

/// Whether the agent must exit so that its service manager restarts it
/// with the new binary.
pub fn restart_needed(check: &UpdateCheck) -> (restart: bool)
    ensures
        restart == (check is Updated),
{
    match check {
        UpdateCheck::Updated => true,
        _ => false,
    }
}

/// The error text for a check that did not complete.
pub open spec fn spec_failure_message(check: UpdateCheck) -> Option<Seq<char>> {
    match check {
        UpdateCheck::Failed(e) => Some("update check failed: "@ + e@),
        UpdateCheck::Panicked(e) => Some("update task panicked: "@ + e@),
        _ => None,
    }
}

/// The error text for a check that did not complete, if it did not.
pub fn failure_message(check: &UpdateCheck) -> (msg: Option<String>)
    ensures
        match msg {
            Some(m) => spec_failure_message(*check) == Some(m@),
            None => spec_failure_message(*check) is None,
        },
{
    match check {
        UpdateCheck::Failed(e) => {
            let mut m = String::from_str("update check failed: ");
            m.append(e.as_str());
            Some(m)
        },
        UpdateCheck::Panicked(e) => {
            let mut m = String::from_str("update task panicked: ");
            m.append(e.as_str());
            Some(m)
        },
        _ => None,
    }
}

/// The answer to an `update_now` command.
pub enum UpdateReply {
    /// The check completed; `updated` says whether a new binary is in place.
    Done { updated: bool },
    /// The check did not complete.
    Failed { message: String },
}

/// The answer to an `update_now` command for the outcome `check`.
pub fn update_now_reply(check: &UpdateCheck) -> (reply: UpdateReply)
    ensures
        match reply {
            UpdateReply::Done { updated } => {
                &&& spec_failure_message(*check) is None
                &&& updated == (check is Updated)
            },
            UpdateReply::Failed { message } => spec_failure_message(*check) == Some(message@),
        },
{
    match failure_message(check) {
        Some(message) => UpdateReply::Failed { message },
        None => UpdateReply::Done { updated: restart_needed(check) },
    }
}

} // verus!

//! Files that are dropped on a session: whether they are sent, and what is
//! asked where a name is taken.

use vstd::prelude::*;

use crate::drive;
use crate::drive::{DriveEntry, DriveResponse, DropReject, ListOutcome};
use crate::instances;
use crate::instances::InstanceStore;
use crate::plan::ConflictChoice;
use crate::text;
use crate::web;

verus! {

/// The capability of a server with transfers.
pub const TRANSFER_CAPABILITY: &'static str = "desktop_transfers";

/// What happens to a drop of files on a session.
#[derive(Debug)]
pub enum DropEvent {
    /// So many files were dropped.
    Dropped { paths: usize },
    /// The credential was looked up.
    Token(Option<String>),
    /// The drive was asked for its files.
    Listed(Result<DriveResponse, String>),
}

/// What is done with a drop of files.
#[derive(Debug)]
pub enum DropAction {
    /// Show a notice, and do no more.
    Notice { title: String, message: String },
    /// Look the credential up.
    FindToken,
    /// Ask the drive for its files.
    List { bearer: String },
    /// Plan the uploads against the files that are there.
    Plan { entries: Vec<DriveEntry> },
}

/// The title of the notice on a drop without files.
pub const EMPTY_DROP_TITLE: &'static str = "Empty drop";

/// The text of the notice on a drop without files.
pub const EMPTY_DROP_MESSAGE: &'static str =
    "No file paths were received (a known quirk on KDE Wayland). Try the drag again.";

/// Whether the action is the notice with the title and the text.
pub open spec fn is_notice(a: DropAction, title: Seq<char>, message: Seq<char>) -> bool {
    a matches DropAction::Notice { title: t, message: m } && t@ == title && m@ == message
}

/// Whether the action is the notice of the reason.
pub open spec fn is_rejection(a: DropAction, reject: DropReject) -> bool {
    is_notice(a, drive::reject_title(reject), drive::reject_message(reject))
}

/// Whether an event of a drop leads to the action: without files, transfers,
/// a credential or a drive there is a notice.
pub open spec fn drop_leads(enabled: bool, event: DropEvent, action: DropAction) -> bool {
    match event {
        DropEvent::Dropped { paths } => if paths == 0 {
            is_notice(action, EMPTY_DROP_TITLE@, EMPTY_DROP_MESSAGE@)
        } else if !enabled {
            is_rejection(action, DropReject::Disabled)
        } else {
            action is FindToken
        },
        DropEvent::Token(None) => is_rejection(action, DropReject::PairRequired),
        DropEvent::Token(Some(bearer)) => action == (DropAction::List { bearer }),
        DropEvent::Listed(Err(e)) => is_rejection(action, DropReject::Unreachable(e)),
        DropEvent::Listed(Ok(resp)) => exists|outcome: ListOutcome|
            #[trigger] drive::leads_to(
                resp.status,
                resp.entries,
                web::json_text(resp.body@, "error"@),
                outcome,
            ) && (match outcome {
                ListOutcome::Ready(entries) => action == (DropAction::Plan { entries }),
                ListOutcome::Reject(reject) => is_rejection(action, reject),
            }),
    }
}

/// The notice of a reason.
fn rejection(reject: &DropReject) -> (r: DropAction)
    ensures
        is_rejection(r, *reject),
{
    DropAction::Notice { title: reject.title().to_string(), message: reject.message() }
}

/// What is done after a listing was judged.
pub fn after_listing(outcome: ListOutcome) -> (r: DropAction)
    ensures
        match outcome {
            ListOutcome::Ready(entries) => r == (DropAction::Plan { entries }),
            ListOutcome::Reject(reject) => is_rejection(r, reject),
        },
{
    match outcome {
        ListOutcome::Ready(entries) => DropAction::Plan { entries },
        ListOutcome::Reject(reject) => rejection(&reject),
    }
}

/// What is done with a drop of files on a session of the server.
pub fn handle_drop(store: Option<&InstanceStore>, instance: &str, event: DropEvent) -> (r:
    DropAction)
    ensures
        drop_leads(
            store is Some && instances::capability_of(
                store->0@,
                instance@,
                TRANSFER_CAPABILITY@,
            ),
            event,
            r,
        ),
{
    match event {
        DropEvent::Dropped { paths } => {
            if paths == 0 {
                DropAction::Notice {
                    title: EMPTY_DROP_TITLE.to_string(),
                    message: EMPTY_DROP_MESSAGE.to_string(),
                }
            } else if !instances::capability(store, instance, TRANSFER_CAPABILITY) {
                rejection(&DropReject::Disabled)
            } else {
                DropAction::FindToken
            }
        },
        DropEvent::Token(token) => match token {
            None => rejection(&DropReject::PairRequired),
            Some(bearer) => DropAction::List { bearer },
        },
        DropEvent::Listed(reply) => match reply {
            Err(e) => rejection(&DropReject::Unreachable(e)),
            Ok(resp) => after_listing(drive::classify_list(&resp)),
        },
    }
}

/// The answer to the question what to do with a name that is taken.
#[derive(Debug)]
pub enum PromptAnswer {
    /// The question could not be shown.
    Broken,
    Yes,
    No,
    Okay,
    Cancel,
    /// The button with the label.
    Custom(String),
}

/// The title of the question.
pub const PROMPT_TITLE: &'static str = "File exists";

/// The question what to do with a name that is taken.
pub fn prompt_message(remote: &str) -> (r: String)
    ensures
        r@ == remote@
            + " already exists in the session drive. Overwrite it, upload under a new name, or cancel?"@,
{
    text::join2(
        remote,
        " already exists in the session drive. Overwrite it, upload under a new name, or cancel?",
    )
}

/// The choice that an answer stands for.
pub open spec fn choice_of(answer: PromptAnswer) -> ConflictChoice {
    match answer {
        PromptAnswer::Broken => ConflictChoice::Cancel,
        PromptAnswer::Yes => ConflictChoice::Overwrite,
        PromptAnswer::No => ConflictChoice::Rename,
        PromptAnswer::Okay => ConflictChoice::Overwrite,
        PromptAnswer::Cancel => ConflictChoice::Cancel,
        PromptAnswer::Custom(label) => if label@ == "Overwrite"@ {
            ConflictChoice::Overwrite
        } else if label@ == "Rename"@ {
            ConflictChoice::Rename
        } else {
            ConflictChoice::Cancel
        },
    }
}

/// The choice that an answer stands for.
pub fn conflict_prompt(answer: &PromptAnswer) -> (r: ConflictChoice)
    ensures
        r == choice_of(*answer),
{
    match answer {
        PromptAnswer::Broken => ConflictChoice::Cancel,
        PromptAnswer::Yes => ConflictChoice::Overwrite,
        PromptAnswer::No => ConflictChoice::Rename,
        PromptAnswer::Okay => ConflictChoice::Overwrite,
        PromptAnswer::Cancel => ConflictChoice::Cancel,
        PromptAnswer::Custom(label) => if text::same(label.as_str(), "Overwrite") {
            ConflictChoice::Overwrite
        } else if text::same(label.as_str(), "Rename") {
            ConflictChoice::Rename
        } else {
            ConflictChoice::Cancel
        },
    }
}

} // verus!

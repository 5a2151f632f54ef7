//! Uploads and downloads, step by step.

use std::path::PathBuf;

use vstd::prelude::*;

use crate::drive;
use crate::drive::{DriveEntry, DriveResponse, ListOutcome};
use crate::seqs;
use crate::text;
use crate::transfer;
use crate::transfer::{
    RowChange, RowModel, Transfer, TransferDirection, TransferStatus, Transfers,
};
use crate::web;

verus! {

broadcast use seqs::lemma_first_range;

/// The largest file that is sent from here: it is held in memory as a whole.
pub const SHELL_UPLOAD_CAP_BYTES: u64 = 0x4000_0000;

/// The failure of a transfer with a server that is not paired.
pub const NO_TOKEN: &'static str = "no paired token for this instance";

// ---------------------------------------------------------------------------
// Uploads
// ---------------------------------------------------------------------------

/// The row of an upload that was planned.
pub open spec fn queued_row(
    instance: Seq<char>,
    session_id: Seq<char>,
    local_path: PathBuf,
    remote_name: Seq<char>,
    now: u64,
) -> RowModel {
    RowModel {
        id: 0,
        direction: TransferDirection::Upload,
        instance,
        session_id,
        remote_name,
        local_path: Some(local_path),
        source_url: None,
        status: TransferStatus::Queued,
        bytes_total: 0,
        bytes_done: 0,
        error: None,
        created_at: now,
    }
}

/// What an upload learns.
#[derive(Debug)]
pub enum UploadEvent {
    /// The size of the file at the path was looked up.
    Sized { path: String, size: Result<u64, String> },
    /// So much of the file was read.
    Progress { done: u64 },
    /// The file, of the given size, was read.
    Read { total: u64, result: Result<(), String> },
    /// The credential was looked up.
    Token(Option<String>),
    /// So many bytes were sent.
    Sent { sent: u64, reply: Result<DriveResponse, String> },
}

/// What an upload does next.
#[derive(Debug)]
pub enum UploadAction {
    /// Read the file.
    Read { total: u64 },
    /// Go on reading.
    Wait,
    /// Look the credential up.
    FindToken,
    /// Send the file.
    Send { bearer: String },
    /// End, with the size or the failure.
    Finish(Result<u64, String>),
}

/// The model of [`UploadAction`].
pub enum ActionModel {
    Read { total: u64 },
    Wait,
    FindToken,
    Send { bearer: Seq<char> },
    Finish(Result<u64, Seq<char>>),
}

impl View for UploadAction {
    type V = ActionModel;

    open spec fn view(&self) -> ActionModel {
        match self {
            UploadAction::Read { total } => ActionModel::Read { total: *total },
            UploadAction::Wait => ActionModel::Wait,
            UploadAction::FindToken => ActionModel::FindToken,
            UploadAction::Send { bearer } => ActionModel::Send { bearer: bearer@ },
            UploadAction::Finish(r) => ActionModel::Finish(outcome_text(*r)),
        }
    }
}

/// The model of the outcome of an upload.
pub open spec fn outcome_text(r: Result<u64, String>) -> Result<u64, Seq<char>> {
    match r {
        Ok(n) => Ok(n),
        Err(e) => Err(e@),
    }
}

/// The size of a file that may be sent, or why it may not: it cannot be looked
/// up, or it is above the cap.
pub open spec fn sendable(path: Seq<char>, size: Result<u64, String>) -> Result<u64, Seq<char>> {
    match size {
        Err(e) => Err("cannot stat "@ + path + ": "@ + e@),
        Ok(n) => if n > SHELL_UPLOAD_CAP_BYTES {
            Err(
                path
                    + " is larger than the 1 GiB drag-drop cap; use the upload button inside the session"@,
            )
        } else {
            Ok(n)
        },
    }
}

/// The outcome of an upload that got a reply: the size that the server tells,
/// else what was sent; or why the server refused it.
pub open spec fn upload_told(
    status: u16,
    size: Option<u64>,
    message: Option<Seq<char>>,
    sent: u64,
) -> Result<u64, Seq<char>> {
    if status == 201 {
        Ok(
            match size {
                Some(n) => n,
                None => sent,
            },
        )
    } else {
        Err(
            "upload failed ("@ + (if status == 401 {
                "the paired token was rejected; re-pair the device"@
            } else if status == 403 {
                "the paired token does not own this session"@
            } else {
                drive::message_or_code(status, message)
            }) + ")"@,
        )
    }
}

/// What an upload does next, and how its row changes.
pub open spec fn upload_next(event: UploadEvent) -> (Option<RowChange>, ActionModel) {
    match event {
        UploadEvent::Sized { path, size } => match sendable(path@, size) {
            Ok(total) => (Some(RowChange::Reading { total }), ActionModel::Read { total }),
            Err(e) => (None, ActionModel::Finish(Err(e))),
        },
        UploadEvent::Progress { done } => (
            Some(RowChange::Progress { done }),
            ActionModel::Wait,
        ),
        UploadEvent::Read { total, result } => match result {
            Ok(()) => (Some(RowChange::Uploading { total }), ActionModel::FindToken),
            Err(e) => (None, ActionModel::Finish(Err(e@))),
        },
        UploadEvent::Token(token) => match token {
            Some(bearer) => (None, ActionModel::Send { bearer: bearer@ }),
            None => (None, ActionModel::Finish(Err(NO_TOKEN@))),
        },
        UploadEvent::Sent { sent, reply } => match reply {
            Ok(resp) => (
                None,
                ActionModel::Finish(
                    upload_told(
                        resp.status,
                        web::json_u64(resp.body@, "size"@),
                        web::json_text(resp.body@, "error"@),
                        sent,
                    ),
                ),
            ),
            Err(e) => (None, ActionModel::Finish(Err(e@))),
        },
    }
}

/// The list after a change of the transfer with the number, if there is one.
pub open spec fn row_changed(s: Seq<RowModel>, id: u64, change: Option<RowChange>) -> Seq<
    RowModel,
> {
    if change is Some && transfer::row_at(s, id) < s.len() {
        s.update(transfer::row_at(s, id), transfer::changed(s[transfer::row_at(s, id)], change->0))
    } else {
        s
    }
}

/// The size of a file that may be sent, or why it may not.
pub fn upload_size(path: &str, size: Result<u64, String>) -> (r: Result<u64, String>)
    ensures
        outcome_text(r) == sendable(path@, size),
{
    match size {
        Err(e) => {
            let mut s = text::join3("cannot stat ", path, ": ");
            s.append(e.as_str());
            Err(s)
        },
        Ok(n) => {
            if n > SHELL_UPLOAD_CAP_BYTES {
                Err(
                    text::join2(
                        path,
                        " is larger than the 1 GiB drag-drop cap; use the upload button inside the session",
                    ),
                )
            } else {
                Ok(n)
            }
        },
    }
}

/// The outcome of an upload, from the fields of the reply.
pub fn upload_outcome(status: u16, size: Option<u64>, message: Option<String>, sent: u64) -> (r:
    Result<u64, String>)
    ensures
        outcome_text(r) == upload_told(status, size, text::opt_text(message), sent),
{
    if status == 201 {
        return Ok(
            match size {
                Some(n) => n,
                None => sent,
            },
        );
    }
    let reason: String = if status == 401 {
        "the paired token was rejected; re-pair the device".to_string()
    } else if status == 403 {
        "the paired token does not own this session".to_string()
    } else {
        drive::message_or_status(status, message)
    };
    Err(text::join3("upload failed (", reason.as_str(), ")"))
}

impl Transfers {
    /// Adds a planned upload to the list, at the given time.
    pub fn spawn_upload_at(
        &mut self,
        instance: &str,
        session_id: &str,
        local_path: PathBuf,
        remote_name: &str,
        now: u64,
    ) -> (r: u64)
        ensures
            r == old(self).next_id,
            final(self).next_id == transfer::id_after(r),
            final(self)@ == transfer::pushed(
                old(self)@,
                queued_row(instance@, session_id@, local_path, remote_name@, now),
                r,
            ),
    {
        self.push_row(
            Transfer {
                id: 0,
                direction: TransferDirection::Upload,
                instance: instance.to_string(),
                session_id: session_id.to_string(),
                remote_name: remote_name.to_string(),
                local_path: Some(local_path),
                source_url: None,
                status: TransferStatus::Queued,
                bytes_total: 0,
                bytes_done: 0,
                error: None,
                created_at: now,
            },
        )
    }

    /// Adds a planned upload to the list.
    pub fn spawn_upload(
        &mut self,
        instance: &str,
        session_id: &str,
        local_path: PathBuf,
        remote_name: &str,
    ) -> (r: u64)
        ensures
            r == old(self).next_id,
            final(self).next_id == transfer::id_after(r),
            exists|now: u64| #[trigger]
                web::clock_told_secs(now) && final(self)@ == transfer::pushed(
                    old(self)@,
                    queued_row(instance@, session_id@, local_path, remote_name@, now),
                    r,
                ),
    {
        let now: u64 = web::now_secs();
        self.spawn_upload_at(instance, session_id, local_path, remote_name, now)
    }

    /// What the upload with the number does next.
    pub fn upload_one(&mut self, id: u64, event: UploadEvent) -> (r: UploadAction)
        ensures
            final(self).next_id == old(self).next_id,
            r@ == upload_next(event).1,
            final(self)@ == row_changed(old(self)@, id, upload_next(event).0),
    {
        match event {
            UploadEvent::Sized { path, size } => match upload_size(path.as_str(), size) {
                Ok(total) => {
                    let _there: bool = self.with_row(id, RowChange::Reading { total });
                    UploadAction::Read { total }
                },
                Err(e) => UploadAction::Finish(Err(e)),
            },
            UploadEvent::Progress { done } => {
                let _there: bool = self.with_row(id, RowChange::Progress { done });
                UploadAction::Wait
            },
            UploadEvent::Read { total, result } => match result {
                Ok(()) => {
                    let _there: bool = self.with_row(id, RowChange::Uploading { total });
                    UploadAction::FindToken
                },
                Err(e) => UploadAction::Finish(Err(e)),
            },
            UploadEvent::Token(token) => match token {
                Some(bearer) => UploadAction::Send { bearer },
                None => UploadAction::Finish(Err(NO_TOKEN.to_string())),
            },
            UploadEvent::Sent { sent, reply } => match reply {
                Ok(resp) => UploadAction::Finish(
                    upload_outcome(
                        resp.status,
                        web::u64_at(&resp.body, "size"),
                        resp.server_error(),
                        sent,
                    ),
                ),
                Err(e) => UploadAction::Finish(Err(e)),
            },
        }
    }

    /// Ends the upload with the number.
    pub fn finish_upload(&mut self, id: u64, outcome: Result<u64, String>)
        ensures
            final(self).next_id == old(self).next_id,
            final(self)@ == row_changed(
                old(self)@,
                id,
                Some(
                    match outcome {
                        Ok(total) => RowChange::Done { total },
                        Err(error) => RowChange::Failed { error },
                    },
                ),
            ),
    {
        let change = match outcome {
            Ok(total) => RowChange::Done { total },
            Err(error) => RowChange::Failed { error },
        };
        let _there: bool = self.with_row(id, change);
    }

    /// What an upload that is tried again starts from: the server, the session
    /// and the local file.
    pub fn cmd_transfer_retry(&self, id: u64) -> (r: Result<(String, String, PathBuf), String>)
        ensures
            ({
                let k = transfer::row_at(self@, id);
                let found = k < self@.len() && self@[k].direction is Upload;
                match r {
                    Ok(t) => found && t.0@ == self@[k].instance && t.1@ == self@[k].session_id
                        && self@[k].local_path == Some(t.2),
                    Err(e) => if found {
                        self@[k].local_path is None && e@ == "the upload has no source file"@
                    } else {
                        e@ == "no upload transfer with that id"@
                    },
                }
            }),
    {
        let k: usize = match self.row_index(id) {
            Some(k) => k,
            None => {
                return Err("no upload transfer with that id".to_string());
            },
        };
        let t = &self.rows[k];
        if t.direction != TransferDirection::Upload {
            return Err("no upload transfer with that id".to_string());
        }
        match &t.local_path {
            Some(p) => Ok((t.instance.clone(), t.session_id.clone(), p.clone())),
            None => Err("the upload has no source file".to_string()),
        }
    }

    /// The local file whose folder is opened.
    pub fn cmd_transfer_open_folder(&self, id: u64) -> (r: Result<PathBuf, String>)
        ensures
            ({
                let k = transfer::row_at(self@, id);
                match r {
                    Ok(p) => k < self@.len() && self@[k].local_path == Some(p),
                    Err(e) => (k == self@.len() || self@[k].local_path is None) && e@
                        == "no local path for that transfer"@,
                }
            }),
    {
        match self.row_index(id) {
            Some(k) => match &self.rows[k].local_path {
                Some(p) => Ok(p.clone()),
                None => Err("no local path for that transfer".to_string()),
            },
            None => Err("no local path for that transfer".to_string()),
        }
    }
}

/// The credential of a transfer, or the failure without one.
pub fn require_token(token: Option<String>) -> (r: Result<String, String>)
    ensures
        match r {
            Ok(t) => token == Some(t),
            Err(e) => token is None && e@ == NO_TOKEN@,
        },
{
    match token {
        Some(t) => Ok(t),
        None => Err(NO_TOKEN.to_string()),
    }
}

/// The files against which an upload that is tried again is planned, from the
/// listing judged already, or why it is not tried again.
pub fn retry_entries(outcome: ListOutcome) -> (r: Result<Vec<DriveEntry>, String>)
    ensures
        match outcome {
            ListOutcome::Ready(entries) => r == Ok::<Vec<DriveEntry>, String>(entries),
            ListOutcome::Reject(reject) => r matches Err(e) && e@ == drive::reject_message(reject),
        },
{
    match outcome {
        ListOutcome::Ready(entries) => Ok(entries),
        ListOutcome::Reject(reject) => Err(reject.message()),
    }
}

/// The files against which an upload that is tried again is planned, or why it
/// is not tried again.
pub fn retry_listing(reply: Result<DriveResponse, String>) -> (r: Result<Vec<DriveEntry>, String>)
    ensures
        match reply {
            Err(m) => r matches Err(e) && e@ == "could not reach the server: "@ + m@,
            Ok(resp) => exists|outcome: ListOutcome|
                #[trigger] drive::leads_to(
                    resp.status,
                    resp.entries,
                    web::json_text(resp.body@, "error"@),
                    outcome,
                ) && (match outcome {
                    ListOutcome::Ready(entries) => r == Ok::<Vec<DriveEntry>, String>(entries),
                    ListOutcome::Reject(reject) => r matches Err(e) && e@ == drive::reject_message(
                        reject,
                    ),
                }),
        },
{
    match reply {
        Err(m) => Err(text::join2("could not reach the server: ", m.as_str())),
        Ok(resp) => retry_entries(drive::classify_list(&resp)),
    }
}

// ---------------------------------------------------------------------------
// Downloads
// ---------------------------------------------------------------------------

/// What a download from the URL of a drive fetches: the server, the session
/// and the file.
pub fn download_from_url(url: &str) -> (r: Result<(String, String, String), String>)
    ensures
        match r {
            Ok(t) => drive::drive_target(url@) == Some((t.0@, t.1@, t.2@)),
            Err(e) => drive::drive_target(url@) is None && e@ == "not a drive download URL"@,
        },
{
    match drive::parse_drive_url(url) {
        Some(t) => Ok(t),
        None => Err("not a drive download URL".to_string()),
    }
}

/// Where a download goes, or the failure where the user picked nothing.
pub fn download_destination(picked: Option<PathBuf>) -> (r: Result<PathBuf, String>)
    ensures
        match r {
            Ok(p) => picked == Some(p),
            Err(e) => picked is None && e@ == "cancelled"@,
        },
{
    match picked {
        Some(p) => Ok(p),
        None => Err("cancelled".to_string()),
    }
}

/// The row of a download that is done.
pub open spec fn fetched_row(
    instance: Seq<char>,
    session_id: Seq<char>,
    name: Seq<char>,
    path: PathBuf,
    total: u64,
    now: u64,
) -> RowModel {
    RowModel {
        id: 0,
        direction: TransferDirection::Download,
        instance,
        session_id,
        remote_name: name,
        local_path: Some(path),
        source_url: None,
        status: TransferStatus::Done,
        bytes_total: total,
        bytes_done: total,
        error: None,
        created_at: now,
    }
}

impl Transfers {
    /// Adds a download that is done to the list, at the given time.
    pub fn download_drive_file_at(
        &mut self,
        instance: &str,
        session_id: &str,
        name: &str,
        path: PathBuf,
        total: u64,
        now: u64,
    ) -> (r: u64)
        ensures
            r == old(self).next_id,
            final(self).next_id == transfer::id_after(r),
            final(self)@ == transfer::pushed(
                old(self)@,
                fetched_row(instance@, session_id@, name@, path, total, now),
                r,
            ),
    {
        self.push_row(
            Transfer {
                id: 0,
                direction: TransferDirection::Download,
                instance: instance.to_string(),
                session_id: session_id.to_string(),
                remote_name: name.to_string(),
                local_path: Some(path),
                source_url: None,
                status: TransferStatus::Done,
                bytes_total: total,
                bytes_done: total,
                error: None,
                created_at: now,
            },
        )
    }

    /// Adds a download that is done to the list.
    pub fn download_drive_file(
        &mut self,
        instance: &str,
        session_id: &str,
        name: &str,
        path: PathBuf,
        total: u64,
    ) -> (r: u64)
        ensures
            r == old(self).next_id,
            final(self).next_id == transfer::id_after(r),
            exists|now: u64| #[trigger]
                web::clock_told_secs(now) && final(self)@ == transfer::pushed(
                    old(self)@,
                    fetched_row(instance@, session_id@, name@, path, total, now),
                    r,
                ),
    {
        let now: u64 = web::now_secs();
        self.download_drive_file_at(instance, session_id, name, path, total, now)
    }
}

} // verus!

//! The list of transfers, uploads and downloads, as it is kept and shown.

use std::path::PathBuf;

use vstd::prelude::*;

use crate::downloads::DownloadRecord;
use crate::drive;
use crate::seqs;
use crate::text;
use crate::web;

verus! {

broadcast use seqs::lemma_first_range;

/// The event that says that the list changed.
pub const EVENT_TRANSFERS_CHANGED: &'static str = "transfers-changed";

/// The label of the window that shows the list.
pub const TRANSFER_WINDOW_LABEL: &'static str = "transfer";

/// How many transfers the list holds before older ones go.
pub const ROW_CAP: usize = 200;

// ---------------------------------------------------------------------------
// Data model
// ---------------------------------------------------------------------------

/// Which way a file goes.
#[derive(Debug, Clone, Copy, PartialEq, Eq, Structural)]
pub enum TransferDirection {
    Upload,
    Download,
}

/// How far a transfer has come.
#[derive(Debug, Clone, Copy, PartialEq, Eq, Structural)]
pub enum TransferStatus {
    Queued,
    Reading,
    Uploading,
    Downloading,
    Done,
    Failed,
    Cancelled,
}

/// Whether nothing happens to a transfer any more.
pub open spec fn is_finished(s: TransferStatus) -> bool {
    s is Done || s is Failed || s is Cancelled
}

impl TransferStatus {
    /// Whether nothing happens to the transfer any more.
    pub fn finished(self) -> (r: bool)
        ensures
            r == is_finished(self),
    {
        match self {
            TransferStatus::Done => true,
            TransferStatus::Failed => true,
            TransferStatus::Cancelled => true,
            _ => false,
        }
    }
}

/// One transfer.
#[derive(Debug)]
pub struct Transfer {
    pub id: u64,
    pub direction: TransferDirection,
    pub instance: String,
    pub session_id: String,
    pub remote_name: String,
    pub local_path: Option<PathBuf>,
    /// The address from which the webview made the download.
    pub source_url: Option<String>,
    pub status: TransferStatus,
    pub bytes_total: u64,
    pub bytes_done: u64,
    pub error: Option<String>,
    pub created_at: u64,
}

/// The model of [`Transfer`].
#[verifier::ext_equal]
pub struct RowModel {
    pub id: u64,
    pub direction: TransferDirection,
    pub instance: Seq<char>,
    pub session_id: Seq<char>,
    pub remote_name: Seq<char>,
    pub local_path: Option<PathBuf>,
    pub source_url: Option<Seq<char>>,
    pub status: TransferStatus,
    pub bytes_total: u64,
    pub bytes_done: u64,
    pub error: Option<Seq<char>>,
    pub created_at: u64,
}

impl View for Transfer {
    type V = RowModel;

    open spec fn view(&self) -> RowModel {
        RowModel {
            id: self.id,
            direction: self.direction,
            instance: self.instance@,
            session_id: self.session_id@,
            remote_name: self.remote_name@,
            local_path: self.local_path,
            source_url: text::opt_text(self.source_url),
            status: self.status,
            bytes_total: self.bytes_total,
            bytes_done: self.bytes_done,
            error: text::opt_text(self.error),
            created_at: self.created_at,
        }
    }
}

/// The models of a list of transfers.
pub open spec fn rows_of(v: Seq<Transfer>) -> Seq<RowModel> {
    v.map_values(|t: Transfer| t@)
}

/// A copy of an optional path.
fn clone_path(p: &Option<PathBuf>) -> (r: Option<PathBuf>)
    ensures
        r == *p,
{
    match p {
        Some(p) => Some(p.clone()),
        None => None,
    }
}

// ---------------------------------------------------------------------------
// The list
// ---------------------------------------------------------------------------

/// The transfers, oldest first, and the number of the next one.
#[derive(Debug)]
pub struct Transfers {
    pub rows: Vec<Transfer>,
    pub next_id: u64,
}

impl View for Transfers {
    type V = Seq<RowModel>;

    open spec fn view(&self) -> Seq<RowModel> {
        rows_of(self.rows@)
    }
}

/// The number after `id`.
pub open spec fn id_after(id: u64) -> u64 {
    if id == u64::MAX {
        0
    } else {
        (id + 1) as u64
    }
}

/// A change of a transfer.
#[derive(Debug)]
pub enum RowChange {
    /// The file is being read.
    Reading { total: u64 },
    /// So much of it was read.
    Progress { done: u64 },
    /// The file is being sent.
    Uploading { total: u64 },
    /// The file was sent.
    Done { total: u64 },
    /// The transfer failed.
    Failed { error: String },
}

/// A transfer after a change.
pub open spec fn changed(t: RowModel, change: RowChange) -> RowModel {
    match change {
        RowChange::Reading { total } => RowModel {
            status: TransferStatus::Reading,
            bytes_total: total,
            ..t
        },
        RowChange::Progress { done } => RowModel { bytes_done: done, ..t },
        RowChange::Uploading { total } => RowModel {
            status: TransferStatus::Uploading,
            bytes_done: total,
            ..t
        },
        RowChange::Done { total } => RowModel {
            status: TransferStatus::Done,
            bytes_total: total,
            bytes_done: total,
            ..t
        },
        RowChange::Failed { error } => RowModel {
            status: TransferStatus::Failed,
            error: Some(error@),
            ..t
        },
    }
}

/// Having the number.
pub open spec fn by_id(id: u64) -> spec_fn(RowModel) -> bool {
    |t: RowModel| t.id == id
}

/// The position of the first transfer with the number, or the length.
pub open spec fn row_at(s: Seq<RowModel>, id: u64) -> int {
    seqs::first(s, by_id(id))
}

/// Going on.
pub open spec fn unfinished() -> spec_fn(RowModel) -> bool {
    |t: RowModel| !is_finished(t.status)
}

/// The list after a transfer was added: the oldest one goes when there are too
/// many.
pub open spec fn pushed(s: Seq<RowModel>, row: RowModel, id: u64) -> Seq<RowModel> {
    (if s.len() >= ROW_CAP {
        s.drop_first()
    } else {
        s
    }).push(RowModel { id, ..row })
}

impl Transfers {
    /// No transfers.
    pub fn new() -> (r: Self)
        ensures
            r@ == Seq::<RowModel>::empty(),
            r.next_id == 1,
    {
        let r = Transfers { rows: Vec::new(), next_id: 1 };
        proof {
            assert(r@ =~= Seq::<RowModel>::empty());
        }
        r
    }

    /// Takes the number of the next transfer.
    fn take_id(&mut self) -> (r: u64)
        ensures
            r == old(self).next_id,
            final(self).next_id == id_after(r),
            final(self).rows == old(self).rows,
    {
        let r: u64 = self.next_id;
        self.next_id = if r == u64::MAX {
            0
        } else {
            r + 1
        };
        r
    }

    /// Adds a transfer, whose number is given out here.
    pub fn push_row(&mut self, row: Transfer) -> (r: u64)
        ensures
            r == old(self).next_id,
            final(self).next_id == id_after(r),
            final(self)@ == pushed(old(self)@, row@, r),
    {
        let ghost before = self@;
        if self.rows.len() >= ROW_CAP {
            let _gone = self.rows.remove(0);
            proof {
                assert(self@ =~= before.drop_first());
            }
        }
        let ghost mid = self@;
        let id: u64 = self.take_id();
        let mut row = row;
        row.id = id;
        self.rows.push(row);
        proof {
            assert(self@ =~= mid.push(row@));
        }
        id
    }

    /// The position of the transfer with the number.
    pub fn row_index(&self, id: u64) -> (r: Option<usize>)
        ensures
            match r {
                Some(k) => k == row_at(self@, id) && k < self@.len(),
                None => row_at(self@, id) == self@.len(),
            },
    {
        let ghost all = self@;
        let mut i: usize = 0;
        while i < self.rows.len()
            invariant
                all == self@,
                i <= self.rows@.len(),
                forall|j: int| 0 <= j < i ==> !by_id(id)(#[trigger] all[j]),
            decreases self.rows@.len() - i,
        {
            if self.rows[i].id == id {
                proof {
                    seqs::lemma_first(all, by_id(id), i as int);
                }
                return Some(i);
            }
            i = i + 1;
        }
        proof {
            seqs::lemma_first(all, by_id(id), i as int);
        }
        None
    }

    /// Changes the transfer with the number, and says whether there is one.
    pub fn with_row(&mut self, id: u64, change: RowChange) -> (r: bool)
        ensures
            final(self).next_id == old(self).next_id,
            r == (row_at(old(self)@, id) < old(self)@.len()),
            final(self)@ == (if r {
                old(self)@.update(
                    row_at(old(self)@, id),
                    changed(old(self)@[row_at(old(self)@, id)], change),
                )
            } else {
                old(self)@
            }),
    {
        let ghost before = self@;
        let k: usize = match self.row_index(id) {
            Some(k) => k,
            None => {
                return false;
            },
        };
        let ghost after = changed(before[k as int], change);
        match change {
            RowChange::Reading { total } => {
                self.rows[k].status = TransferStatus::Reading;
                self.rows[k].bytes_total = total;
            },
            RowChange::Progress { done } => {
                self.rows[k].bytes_done = done;
            },
            RowChange::Uploading { total } => {
                self.rows[k].status = TransferStatus::Uploading;
                self.rows[k].bytes_done = total;
            },
            RowChange::Done { total } => {
                self.rows[k].status = TransferStatus::Done;
                self.rows[k].bytes_total = total;
                self.rows[k].bytes_done = total;
            },
            RowChange::Failed { error } => {
                self.rows[k].status = TransferStatus::Failed;
                self.rows[k].error = Some(error);
            },
        }
        proof {
            assert(self@ =~= before.update(k as int, after));
        }
        true
    }

    /// Removes the transfers to which nothing happens any more.
    pub fn cmd_transfer_clear_finished(&mut self)
        ensures
            final(self).next_id == old(self).next_id,
            final(self)@ == old(self)@.filter(unfinished()),
    {
        let ghost before = self@;
        let ghost keep = unfinished();
        let ghost mut seen: int = 0;
        let n: usize = self.rows.len();
        let mut i: usize = 0;
        proof {
            assert(before.take(0) =~= Seq::<RowModel>::empty());
            reveal(Seq::filter);
            assert(before.take(0).filter(keep) + before.skip(0) =~= before);
        }
        while i < self.rows.len()
            invariant
                keep == unfinished(),
                n == before.len(),
                0 <= seen <= n,
                i == before.take(seen).filter(keep).len(),
                self.next_id == old(self).next_id,
                self@ == before.take(seen).filter(keep) + before.skip(seen),
            decreases n - seen,
        {
            let ghost head = before.take(seen).filter(keep);
            let ghost mid = self@;
            proof {
                assert(mid[i as int] == before[seen]);
                assert(before.take(seen + 1) =~= before.take(seen).push(before[seen]));
                seqs::lemma_filter_push(before.take(seen), before[seen], keep);
            }
            if self.rows[i].status.finished() {
                let _gone = self.rows.remove(i);
                proof {
                    assert(self@ =~= mid.remove(i as int));
                }
            } else {
                i = i + 1;
            }
            proof {
                seen = seen + 1;
                assert(mid == head + before.skip(seen - 1));
                assert(self@ =~= before.take(seen).filter(keep) + before.skip(seen));
            }
        }
        proof {
            assert(before.take(n as int) =~= before);
            assert(before.filter(keep) + before.skip(n as int) =~= before.filter(keep));
        }
    }
}

// ---------------------------------------------------------------------------
// Downloads of the webview
// ---------------------------------------------------------------------------

/// Whether the list shows the download already.
pub open spec fn mirrored(rows: Seq<RowModel>, record: DownloadRecord) -> bool {
    exists|i: int|
        0 <= i < rows.len() && (#[trigger] rows[i]).source_url == Some(record.url@)
            && rows[i].created_at == record.requested_at_secs
}

/// A download of the webview in the list, under the given name.
pub open spec fn mirror_row(record: DownloadRecord, name: Option<Seq<char>>) -> RowModel {
    RowModel {
        id: 0,
        direction: TransferDirection::Download,
        instance: Seq::empty(),
        session_id: Seq::empty(),
        remote_name: match name {
            Some(n) => n,
            None => "download"@,
        },
        local_path: record.path,
        source_url: Some(record.url@),
        status: if record.success {
            TransferStatus::Done
        } else {
            TransferStatus::Failed
        },
        bytes_total: 0,
        bytes_done: 0,
        error: if record.success {
            None
        } else {
            Some("the download was interrupted"@)
        },
        created_at: record.requested_at_secs,
    }
}

/// Not being shown in the list.
pub open spec fn unmirrored(rows: Seq<RowModel>) -> spec_fn(DownloadRecord) -> bool {
    |r: DownloadRecord| !mirrored(rows, r)
}

/// Whether the row shows the download, under the name of the file at its path.
pub open spec fn shows(row: RowModel, record: DownloadRecord) -> bool {
    exists|name: Option<String>| #[trigger]
        web::named(record.path, name) && row == mirror_row(record, text::opt_text(name))
}

/// Whether the rows show the downloads, one each.
pub open spec fn mirrors(rows: Seq<RowModel>, records: Seq<DownloadRecord>) -> bool {
    &&& rows.len() == records.len()
    &&& forall|i: int| 0 <= i < rows.len() ==> shows(#[trigger] rows[i], records[i])
}

/// Whether the list shows the download already.
fn is_mirrored(rows: &[Transfer], record: &DownloadRecord) -> (r: bool)
    ensures
        r == mirrored(rows_of(rows@), *record),
{
    let ghost all = rows_of(rows@);
    let mut i: usize = 0;
    while i < rows.len()
        invariant
            all == rows_of(rows@),
            i <= rows@.len(),
            forall|j: int|
                0 <= j < i ==> !((#[trigger] all[j]).source_url == Some(record.url@)
                    && all[j].created_at == record.requested_at_secs),
        decreases rows@.len() - i,
    {
        proof {
            assert(all[i as int] == rows@[i as int]@);
        }
        if rows[i].created_at == record.requested_at_secs && text::is_text(
            &rows[i].source_url,
            record.url.as_str(),
        ) {
            return true;
        }
        i = i + 1;
    }
    false
}

/// Shows a download of the webview under the given name.
pub fn mirror_of(record: &DownloadRecord, name: Option<String>) -> (r: Transfer)
    ensures
        r@ == mirror_row(*record, text::opt_text(name)),
{
    let r = Transfer {
        id: 0,
        direction: TransferDirection::Download,
        instance: String::new(),
        session_id: String::new(),
        remote_name: match name {
            Some(n) => n,
            None => "download".to_string(),
        },
        local_path: clone_path(&record.path),
        source_url: Some(record.url.clone()),
        status: if record.success {
            TransferStatus::Done
        } else {
            TransferStatus::Failed
        },
        bytes_total: 0,
        bytes_done: 0,
        error: if record.success {
            None
        } else {
            Some("the download was interrupted".to_string())
        },
        created_at: record.requested_at_secs,
    };
    proof {
        assert(r.instance@ =~= Seq::<char>::empty());
        assert(r.session_id@ =~= Seq::<char>::empty());
    }
    r
}

/// The rows for the downloads that the list does not show yet. What a
/// downloaded file is called is up to the operating system.
pub fn new_mirror_rows(rows: &[Transfer], records: &[DownloadRecord]) -> (r: Vec<Transfer>)
    ensures
        mirrors(rows_of(r@), records@.filter(unmirrored(rows_of(rows@)))),
{
    let ghost all = rows_of(rows@);
    let ghost p = unmirrored(all);
    let mut out: Vec<Transfer> = Vec::new();
    let mut i: usize = 0;
    proof {
        assert(records@.take(0) =~= Seq::<DownloadRecord>::empty());
        reveal(Seq::filter);
    }
    while i < records.len()
        invariant
            all == rows_of(rows@),
            p == unmirrored(all),
            i <= records@.len(),
            mirrors(rows_of(out@), records@.take(i as int).filter(p)),
        decreases records@.len() - i,
    {
        let ghost before = rows_of(out@);
        let ghost shown = records@.take(i as int).filter(p);
        proof {
            assert(records@.take(i + 1) =~= records@.take(i as int).push(records@[i as int]));
            seqs::lemma_filter_push(records@.take(i as int), records@[i as int], p);
        }
        let record = &records[i];
        if !is_mirrored(rows, record) {
            let name: Option<String> = web::name_at_opt(&record.path);
            let row = mirror_of(record, name);
            out.push(row);
            proof {
                let after = rows_of(out@);
                assert(after =~= before.push(row@));
                assert(web::named(record.path, name));
                assert(shows(row@, *record));
                assert forall|j: int| 0 <= j < after.len() implies shows(
                    #[trigger] after[j],
                    shown.push(*record)[j],
                ) by {
                    if j < before.len() {
                        assert(shows(before[j], shown[j]));
                    }
                }
                assert(p(*record));
            }
        }
        i = i + 1;
    }
    proof {
        assert(records@.take(i as int) =~= records@);
    }
    out
}

/// The `i`-th number from `next` on.
pub open spec fn id_plus(next: u64, i: int) -> u64 {
    ((next + i) % 0x1_0000_0000_0000_0000) as u64
}

/// The list after several transfers were added, one after the other, with the
/// numbers from `next` on.
pub open spec fn pushed_all(s: Seq<RowModel>, news: Seq<RowModel>, next: u64) -> Seq<RowModel>
    decreases news.len(),
{
    if news.len() == 0 {
        s
    } else {
        pushed(
            pushed_all(s, news.drop_last(), next),
            news.last(),
            id_plus(next, news.len() - 1),
        )
    }
}

/// Adding transfers keeps a list that is within the cap within it.
proof fn lemma_pushed_all_len(s: Seq<RowModel>, news: Seq<RowModel>, next: u64)
    requires
        s.len() <= ROW_CAP,
    ensures
        pushed_all(s, news, next).len() <= ROW_CAP,
    decreases news.len(),
{
    if news.len() > 0 {
        lemma_pushed_all_len(s, news.drop_last(), next);
    }
}

impl Transfers {
    /// Adds the downloads that the list does not show yet, and says whether
    /// there were any. The oldest transfers go when there are too many.
    pub fn mirror_engine_downloads(&mut self, records: &[DownloadRecord]) -> (r: bool)
        ensures
            exists|news: Seq<RowModel>|
                {
                    &&& #[trigger] mirrors(news, records@.filter(unmirrored(old(self)@)))
                    &&& final(self)@ == pushed_all(old(self)@, news, old(self).next_id)
                    &&& final(self).next_id == id_plus(old(self).next_id, news.len() as int)
                    &&& r == (news.len() > 0)
                },
            old(self)@.len() <= ROW_CAP ==> final(self)@.len() <= ROW_CAP,
    {
        let ghost before = self@;
        let ghost first = self.next_id;
        let mut fresh = new_mirror_rows(self.rows.as_slice(), records);
        let ghost news = rows_of(fresh@);
        let any: bool = fresh.len() > 0;
        let ghost mut k: int = 0;
        proof {
            assert(news.skip(0) =~= news);
        }
        while fresh.len() > 0
            invariant
                0 <= k <= news.len(),
                rows_of(fresh@) == news.skip(k),
                self.next_id == id_plus(first, k),
                self@ == pushed_all(before, news.take(k), first),
            decreases fresh@.len(),
        {
            let ghost rest = fresh@;
            let row = fresh.remove(0);
            proof {
                assert(rows_of(rest).len() == news.skip(k).len());
                assert(k < news.len());
                assert(rows_of(rest)[0] == rest[0]@);
                assert(news.skip(k)[0] == news[k]);
                assert(row@ == news[k]);
                assert forall|j: int| 0 <= j < fresh@.len() implies (#[trigger] fresh@[j])@
                    == news.skip(k + 1)[j] by {
                    assert(fresh@[j] == rest[j + 1]);
                    assert(rows_of(rest)[j + 1] == news.skip(k)[j + 1]);
                }
                assert(rows_of(fresh@) =~= news.skip(k + 1));
                assert(news.take(k + 1).drop_last() =~= news.take(k));
            }
            let _id: u64 = self.push_row(row);
            proof {
                k = k + 1;
            }
        }
        proof {
            assert(news.skip(k).len() == 0);
            assert(news.take(k) =~= news);
            assert(mirrors(news, records@.filter(unmirrored(before))));
            if before.len() <= ROW_CAP {
                lemma_pushed_all_len(before, news, first);
            }
        }
        any
    }
}

// ---------------------------------------------------------------------------
// Views
// ---------------------------------------------------------------------------

/// A transfer as it is shown.
#[derive(Debug)]
pub struct TransferView {
    pub id: u64,
    pub direction: String,
    pub remote_name: String,
    pub local_name: Option<String>,
    pub status: String,
    pub bytes_total: u64,
    pub bytes_done: u64,
    pub error: Option<String>,
    pub created_at: u64,
    /// Whether the upload can be tried again.
    pub can_retry: bool,
    /// Whether the folder of the local file can be opened.
    pub can_open_folder: bool,
    /// Whether the file can be fetched again from its drive.
    pub can_save_as: bool,
    pub source_url: Option<String>,
}

/// The model of [`TransferView`].
#[verifier::ext_equal]
pub struct RowShown {
    pub id: u64,
    pub direction: Seq<char>,
    pub remote_name: Seq<char>,
    pub local_name: Option<Seq<char>>,
    pub status: Seq<char>,
    pub bytes_total: u64,
    pub bytes_done: u64,
    pub error: Option<Seq<char>>,
    pub created_at: u64,
    pub can_retry: bool,
    pub can_open_folder: bool,
    pub can_save_as: bool,
    pub source_url: Option<Seq<char>>,
}

impl View for TransferView {
    type V = RowShown;

    open spec fn view(&self) -> RowShown {
        RowShown {
            id: self.id,
            direction: self.direction@,
            remote_name: self.remote_name@,
            local_name: text::opt_text(self.local_name),
            status: self.status@,
            bytes_total: self.bytes_total,
            bytes_done: self.bytes_done,
            error: text::opt_text(self.error),
            created_at: self.created_at,
            can_retry: self.can_retry,
            can_open_folder: self.can_open_folder,
            can_save_as: self.can_save_as,
            source_url: text::opt_text(self.source_url),
        }
    }
}

/// The word for a direction.
pub open spec fn direction_word(d: TransferDirection) -> Seq<char> {
    match d {
        TransferDirection::Upload => "upload"@,
        TransferDirection::Download => "download"@,
    }
}

/// The word for a status.
pub open spec fn status_word(s: TransferStatus) -> Seq<char> {
    match s {
        TransferStatus::Queued => "queued"@,
        TransferStatus::Reading => "reading"@,
        TransferStatus::Uploading => "uploading"@,
        TransferStatus::Downloading => "downloading"@,
        TransferStatus::Done => "done"@,
        TransferStatus::Failed => "failed"@,
        TransferStatus::Cancelled => "cancelled"@,
    }
}

/// How a transfer is shown, with the name of its local file, whether that file
/// is there, and whether it came from a drive.
pub open spec fn row_shown(
    t: RowModel,
    local_name: Option<Seq<char>>,
    present: bool,
    from_drive: bool,
) -> RowShown {
    RowShown {
        id: t.id,
        direction: direction_word(t.direction),
        remote_name: t.remote_name,
        local_name,
        status: status_word(t.status),
        bytes_total: t.bytes_total,
        bytes_done: t.bytes_done,
        error: t.error,
        created_at: t.created_at,
        can_retry: t.direction is Upload && t.status is Failed,
        can_open_folder: t.local_path is Some && present,
        can_save_as: from_drive,
        source_url: t.source_url,
    }
}

/// Shows a transfer.
pub fn row_view(t: &Transfer, local_name: Option<String>, present: bool, from_drive: bool) -> (r:
    TransferView)
    ensures
        r@ == row_shown(t@, text::opt_text(local_name), present, from_drive),
{
    TransferView {
        id: t.id,
        direction: match t.direction {
            TransferDirection::Upload => "upload".to_string(),
            TransferDirection::Download => "download".to_string(),
        },
        remote_name: t.remote_name.clone(),
        local_name,
        status: match t.status {
            TransferStatus::Queued => "queued".to_string(),
            TransferStatus::Reading => "reading".to_string(),
            TransferStatus::Uploading => "uploading".to_string(),
            TransferStatus::Downloading => "downloading".to_string(),
            TransferStatus::Done => "done".to_string(),
            TransferStatus::Failed => "failed".to_string(),
            TransferStatus::Cancelled => "cancelled".to_string(),
        },
        bytes_total: t.bytes_total,
        bytes_done: t.bytes_done,
        error: text::clone_opt(&t.error),
        created_at: t.created_at,
        can_retry: t.direction == TransferDirection::Upload && t.status == TransferStatus::Failed,
        can_open_folder: t.local_path.is_some() && present,
        can_save_as: from_drive,
        source_url: text::clone_opt(&t.source_url),
    }
}

/// Whether a transfer came from a drive.
pub open spec fn came_from_drive(t: RowModel) -> bool {
    t.source_url matches Some(u) && drive::drive_target(u) is Some
}

/// Whether the view shows the transfer, with the name of its local file.
pub open spec fn displays(v: RowShown, t: RowModel, present: bool) -> bool {
    exists|name: Option<String>| #[trigger]
        web::named(t.local_path, name) && v == row_shown(
            t,
            text::opt_text(name),
            present,
            came_from_drive(t),
        )
}

/// What is told at the position: false where nothing is.
pub open spec fn told(flags: Seq<bool>, i: int) -> bool {
    i < flags.len() && flags[i]
}

impl Transfers {
    /// Shows every transfer. `present` says of each whether its local file is
    /// there; what that file is called is up to the operating system.
    pub fn transfers_view(&self, present: &Vec<bool>) -> (r: Vec<TransferView>)
        ensures
            r@.len() == self@.len(),
            forall|i: int|
                0 <= i < r@.len() ==> displays((#[trigger] r@[i])@, self@[i], told(present@, i)),
    {
        let mut out: Vec<TransferView> = Vec::new();
        let mut i: usize = 0;
        while i < self.rows.len()
            invariant
                i <= self.rows@.len(),
                out@.len() == i,
                forall|j: int|
                    0 <= j < i ==> displays((#[trigger] out@[j])@, self@[j], told(present@, j)),
            decreases self.rows@.len() - i,
        {
            let t = &self.rows[i];
            let name: Option<String> = web::name_at_opt(&t.local_path);
            let from_drive: bool = match &t.source_url {
                Some(u) => drive::parse_drive_url(u.as_str()).is_some(),
                None => false,
            };
            let there: bool = i < present.len() && present[i];
            let view = row_view(t, name, there, from_drive);
            proof {
                assert(self@[i as int] == t@);
                assert(web::named(t@.local_path, name));
                assert(view@ == row_shown(
                    t@,
                    text::opt_text(name),
                    told(present@, i as int),
                    came_from_drive(t@),
                ));
            }
            out.push(view);
            i = i + 1;
        }
        out
    }
}

} // verus!

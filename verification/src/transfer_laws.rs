//! What holds of the list of transfers, of names and plans, of tokens, and of
//! the bytes of downloads.

use vstd::prelude::*;

use crate::downloads;
use crate::downloads::DownloadRecord;
use crate::drive;
use crate::drive::DriveResponse;
use crate::http;
use crate::plan;
use crate::plan::{ConflictChoice, RunModel};
use crate::seqs;
use crate::text;
use crate::transfer;
use crate::transfer::{RowChange, RowModel};
use crate::uploads;
use crate::uploads::{ActionModel, UploadEvent};
use crate::web;

verus! {

broadcast use seqs::lemma_first_range;

// ---------------------------------------------------------------------------
// The list
// ---------------------------------------------------------------------------

/// A list within its cap stays within it when a transfer is added; the new one
/// is the last, and those that stay keep their order.
pub proof fn law_list_is_capped(s: Seq<RowModel>, row: RowModel, id: u64)
    requires
        s.len() <= transfer::ROW_CAP,
    ensures
        transfer::pushed(s, row, id).len() == (if s.len() == transfer::ROW_CAP {
            transfer::ROW_CAP as nat
        } else {
            s.len() + 1
        }),
        transfer::pushed(s, row, id).last() == (RowModel { id, ..row }),
        transfer::pushed(s, row, id).drop_last() == s.skip(
            s.len() + 1 - transfer::pushed(s, row, id).len(),
        ),
{
    let t = transfer::pushed(s, row, id);
    assert(t.drop_last() =~= s.skip(s.len() + 1 - t.len()));
}

/// The numbers of the transfers are distinct, and below the next one.
pub open spec fn numbers(s: Seq<RowModel>, next: u64) -> bool {
    &&& forall|i: int| 0 <= i < s.len() ==> (#[trigger] s[i]).id < next
    &&& forall|i: int, j: int|
        0 <= i < j < s.len() ==> (#[trigger] s[i]).id != (#[trigger] s[j]).id
}

/// Adding a transfer keeps the numbers distinct, as long as they last, and the
/// transfer is found under its number.
pub proof fn law_push_keeps_numbers_distinct(s: Seq<RowModel>, row: RowModel, next: u64)
    requires
        numbers(s, next),
        next < u64::MAX,
    ensures
        numbers(transfer::pushed(s, row, next), transfer::id_after(next)),
        transfer::row_at(transfer::pushed(s, row, next), next) == transfer::pushed(
            s,
            row,
            next,
        ).len() - 1,
{
    let t = transfer::pushed(s, row, next);
    let d: int = if s.len() >= transfer::ROW_CAP {
        1
    } else {
        0
    };
    assert forall|i: int| 0 <= i < t.len() - 1 implies (#[trigger] t[i]).id == s[i + d].id by {}
    assert forall|i: int, j: int| 0 <= i < j < t.len() implies (#[trigger] t[i]).id != (
    #[trigger] t[j]).id by {
        assert(t[i].id == s[i + d].id);
        if j < t.len() - 1 {
            assert(t[j].id == s[j + d].id);
        }
    }
    assert forall|j: int| 0 <= j < t.len() - 1 implies !transfer::by_id(next)(#[trigger] t[j]) by {
        assert(t[j].id == s[j + d].id);
    }
    seqs::lemma_first(t, transfer::by_id(next), t.len() - 1);
}

/// What adding several transfers leaves of the list: the latest, as many as
/// there were before the cap was reached, in their order.
proof fn lemma_pushed_all(s: Seq<RowModel>, news: Seq<RowModel>, next: u64)
    requires
        s.len() <= transfer::ROW_CAP,
    ensures
        ({
            let all = s + numbered_rows(news, next);
            let after = transfer::pushed_all(s, news, next);
            &&& after.len() == (if all.len() <= transfer::ROW_CAP {
                all.len()
            } else {
                transfer::ROW_CAP as nat
            })
            &&& after == all.skip(all.len() - after.len())
        }),
    decreases news.len(),
{
    let all = s + numbered_rows(news, next);
    let after = transfer::pushed_all(s, news, next);
    if news.len() > 0 {
        let fewer = news.drop_last();
        let some = s + numbered_rows(fewer, next);
        lemma_pushed_all(s, fewer, next);
        assert(all =~= some.push(
            RowModel { id: transfer::id_plus(next, news.len() - 1), ..news.last() },
        ));
        assert(after =~= all.skip(all.len() - after.len()));
    } else {
        assert(all =~= s);
        assert(s.skip(0) =~= s);
    }
}

/// The rows with the numbers from `next` on.
pub open spec fn numbered_rows(rows: Seq<RowModel>, next: u64) -> Seq<RowModel> {
    Seq::new(rows.len(), |i: int| RowModel { id: transfer::id_plus(next, i), ..rows[i] })
}

/// Showing downloads of the webview keeps a list within its cap: of the old
/// transfers and the new ones after them the latest stay, in their order.
pub proof fn law_mirrored_list_is_capped(s: Seq<RowModel>, news: Seq<RowModel>, next: u64)
    requires
        s.len() <= transfer::ROW_CAP,
    ensures
        ({
            let all = s + numbered_rows(news, next);
            let after = transfer::pushed_all(s, news, next);
            &&& after.len() <= transfer::ROW_CAP
            &&& all.len() <= transfer::ROW_CAP ==> after == all
            &&& all.len() > transfer::ROW_CAP ==> after == all.skip(
                all.len() - transfer::ROW_CAP,
            )
        }),
{
    lemma_pushed_all(s, news, next);
    let all = s + numbered_rows(news, next);
    assert(all.skip(0) =~= all);
}

/// Showing downloads of the webview keeps the numbers distinct, as long as
/// they last.
pub proof fn law_mirror_keeps_numbers_distinct(s: Seq<RowModel>, news: Seq<RowModel>, next: u64)
    requires
        numbers(s, next),
        next + news.len() <= u64::MAX,
    ensures
        numbers(
            transfer::pushed_all(s, news, next),
            transfer::id_plus(next, news.len() as int),
        ),
    decreases news.len(),
{
    if news.len() > 0 {
        let fewer = news.drop_last();
        law_mirror_keeps_numbers_distinct(s, fewer, next);
        let id = transfer::id_plus(next, news.len() - 1);
        assert(id == next + news.len() - 1);
        law_push_keeps_numbers_distinct(
            transfer::pushed_all(s, fewer, next),
            news.last(),
            id,
        );
        assert(transfer::id_after(id) == transfer::id_plus(next, news.len() as int));
    }
}

/// Clearing leaves no finished transfer, and every other one.
pub proof fn law_cleared_list_goes_on(s: Seq<RowModel>)
    ensures
        forall|i: int|
            0 <= i < s.filter(transfer::unfinished()).len() ==> !transfer::is_finished(
                (#[trigger] s.filter(transfer::unfinished())[i]).status,
            ),
        forall|i: int|
            0 <= i < s.len() && !transfer::is_finished((#[trigger] s[i]).status) ==> s.filter(
                transfer::unfinished(),
            ).contains(s[i]),
{
    let p = transfer::unfinished();
    seqs::lemma_filter_from(s, p);
    assert forall|i: int| 0 <= i < s.filter(p).len() implies !transfer::is_finished(
        (#[trigger] s.filter(p)[i]).status,
    ) by {
        assert(p(s.filter(p)[i]));
    }
    assert forall|i: int|
        0 <= i < s.len() && !transfer::is_finished((#[trigger] s[i]).status) implies s.filter(
        p,
    ).contains(s[i]) by {
        seqs::lemma_filter_keeps(s, p, i);
    }
}

/// Whether the row is that of the download.
pub open spec fn is_row_of(row: RowModel, record: DownloadRecord) -> bool {
    row.source_url == Some(record.url@) && row.created_at == record.requested_at_secs
}

/// Looking at the same downloads again adds nothing to the list, unless the
/// only row of one of them was among the oldest that had to go.
pub proof fn law_mirroring_again_adds_nothing(
    rows: Seq<RowModel>,
    news: Seq<RowModel>,
    records: Seq<DownloadRecord>,
    next: u64,
)
    requires
        rows.len() <= transfer::ROW_CAP,
        transfer::mirrors(news, records.filter(transfer::unmirrored(rows))),
        ({
            let all = rows + numbered_rows(news, next);
            forall|i: int, k: int|
                0 <= i < all.len() - transfer::ROW_CAP && 0 <= k < records.len()
                    && #[trigger] is_row_of(all[i], records[k]) ==> transfer::mirrored(
                    transfer::pushed_all(rows, news, next),
                    records[k],
                )
        }),
    ensures
        records.filter(transfer::unmirrored(transfer::pushed_all(rows, news, next))).len() == 0,
{
    let fresh = records.filter(transfer::unmirrored(rows));
    let added = numbered_rows(news, next);
    let all = rows + added;
    let after = transfer::pushed_all(rows, news, next);
    law_mirrored_list_is_capped(rows, news, next);
    let gone: int = if all.len() > transfer::ROW_CAP {
        all.len() - transfer::ROW_CAP
    } else {
        0
    };
    assert(all.skip(0) =~= all);
    assert(after == all.skip(gone));
    assert forall|i: int| 0 <= i < records.len() implies !transfer::unmirrored(after)(
        #[trigger] records[i],
    ) by {
        let r = records[i];
        let k: int = if transfer::mirrored(rows, r) {
            let k = choose|k: int|
                0 <= k < rows.len() && (#[trigger] rows[k]).source_url == Some(r.url@)
                    && rows[k].created_at == r.requested_at_secs;
            assert(all[k] == rows[k]);
            k
        } else {
            seqs::lemma_filter_keeps(records, transfer::unmirrored(rows), i);
            let k = choose|k: int| 0 <= k < fresh.len() && fresh[k] == r;
            assert(transfer::shows(news[k], fresh[k]));
            assert(all[rows.len() + k] == added[k]);
            assert(added[k].source_url == news[k].source_url);
            rows.len() + k
        };
        assert(is_row_of(all[k], records[i]));
        if k >= gone {
            assert(after[k - gone] == all[k]);
        }
    }
    seqs::lemma_filter_none(records, transfer::unmirrored(after));
}

/// A transfer goes on until it is done, failed or cancelled, and clearing takes
/// out the finished ones one by one: one more transfer stays exactly where it
/// goes on, and in its place.
pub proof fn law_clearing_takes_the_finished_out(s: Seq<RowModel>, t: RowModel)
    ensures
        Seq::<RowModel>::empty().filter(transfer::unfinished()).len() == 0,
        t.status is Queued || t.status is Reading || t.status is Uploading || t.status is Downloading
            ==> s.push(t).filter(transfer::unfinished()) == s.filter(transfer::unfinished()).push(t),
        t.status is Done || t.status is Failed || t.status is Cancelled ==> s.push(t).filter(
            transfer::unfinished(),
        ) == s.filter(transfer::unfinished()),
{
    seqs::lemma_filter_push(s, t, transfer::unfinished());
    seqs::lemma_filter_from(Seq::<RowModel>::empty(), transfer::unfinished());
}

/// A list with fewer than two hundred transfers keeps all of them when one is
/// added; one with so many loses its oldest.
pub proof fn law_list_holds_two_hundred(s: Seq<RowModel>, row: RowModel, id: u64)
    ensures
        s.len() < 200 ==> transfer::pushed(s, row, id).drop_last() == s,
        s.len() == 200 ==> transfer::pushed(s, row, id).drop_last() == s.skip(1),
        ({
            let new = transfer::pushed(s, row, id).last();
            &&& new.id == id
            &&& new.direction == row.direction
            &&& new.instance == row.instance
            &&& new.session_id == row.session_id
            &&& new.remote_name == row.remote_name
            &&& new.local_path == row.local_path
            &&& new.source_url == row.source_url
            &&& new.status == row.status
            &&& new.bytes_total == row.bytes_total
            &&& new.bytes_done == row.bytes_done
            &&& new.error == row.error
            &&& new.created_at == row.created_at
        }),
{
    assert(s.len() < 200 ==> transfer::pushed(s, row, id).drop_last() =~= s);
    assert(s.len() == 200 ==> transfer::pushed(s, row, id).drop_last() =~= s.skip(1));
}

/// The numbers count up by one, and begin again at zero after the last.
pub proof fn law_numbers_count_up(next: u64, i: int)
    ensures
        next < u64::MAX ==> transfer::id_after(next) == next + 1,
        transfer::id_after(u64::MAX) == 0,
        0 <= i && next + i <= u64::MAX ==> transfer::id_plus(next, i) == next + i,
        transfer::id_plus(next, 0) == next,
        transfer::id_plus(next, 1) == transfer::id_after(next),
{
}

/// A transfer is found under its number, and the first of them where there are
/// several; under a number that none has nothing is found.
pub proof fn law_transfer_is_found_by_its_number(s: Seq<RowModel>, id: u64, k: int)
    requires
        0 <= k < s.len(),
    ensures
        s[k].id == id ==> 0 <= transfer::row_at(s, id) <= k && s[transfer::row_at(s, id)].id == id,
        (forall|j: int| 0 <= j < s.len() ==> (#[trigger] s[j]).id != id) ==> transfer::row_at(s, id)
            == s.len(),
{
    let p = transfer::by_id(id);
    seqs::lemma_first_bounds(s, p);
    if s[k].id == id {
        seqs::lemma_first_at_most(s, p, k);
    }
    if forall|j: int| 0 <= j < s.len() ==> (#[trigger] s[j]).id != id {
        seqs::lemma_first(s, p, s.len() as int);
    }
}

/// A change touches the transfer with the number, and no other; without such a
/// transfer, or without a change, the list stays as it is.
pub proof fn law_change_touches_one_transfer(
    s: Seq<RowModel>,
    id: u64,
    change: RowChange,
    j: int,
)
    requires
        0 <= j < s.len(),
    ensures
        uploads::row_changed(s, id, None) == s,
        uploads::row_changed(s, id, Some(change)).len() == s.len(),
        j != transfer::row_at(s, id) ==> uploads::row_changed(s, id, Some(change))[j] == s[j],
        j == transfer::row_at(s, id) ==> uploads::row_changed(s, id, Some(change))[j]
            == transfer::changed(s[j], change),
{
}

/// A change says how far a transfer has come, and leaves what the transfer is
/// of alone: its number, its direction, its server, its session, its names, its
/// addresses and its time.
pub proof fn law_changes_say_how_far(t: RowModel, change: RowChange)
    ensures
        ({
            let r = transfer::changed(t, change);
            &&& r.id == t.id
            &&& r.direction == t.direction
            &&& r.instance == t.instance
            &&& r.session_id == t.session_id
            &&& r.remote_name == t.remote_name
            &&& r.local_path == t.local_path
            &&& r.source_url == t.source_url
            &&& r.created_at == t.created_at
            &&& change matches RowChange::Reading { total } ==> r.status is Reading && r.bytes_total
                == total && r.bytes_done == t.bytes_done && r.error == t.error
            &&& change matches RowChange::Progress { done } ==> r.status == t.status
                && r.bytes_total == t.bytes_total && r.bytes_done == done && r.error == t.error
            &&& change matches RowChange::Uploading { total } ==> r.status is Uploading
                && r.bytes_total == t.bytes_total && r.bytes_done == total && r.error == t.error
            &&& change matches RowChange::Done { total } ==> r.status is Done && r.bytes_total
                == total && r.bytes_done == total && r.error == t.error
            &&& change matches RowChange::Failed { error } ==> r.status is Failed && r.error
                == Some(error@) && r.bytes_total == t.bytes_total && r.bytes_done == t.bytes_done
        }),
{
}

/// An upload that goes well is read, sent and done: at its end as much is done
/// as there is, and nothing says that it failed.
pub proof fn law_upload_that_goes_well(t: RowModel, size: u64, part: u64, total: u64)
    requires
        t.error is None,
    ensures
        ({
            let read = transfer::changed(
                transfer::changed(t, RowChange::Reading { total: size }),
                RowChange::Progress { done: part },
            );
            let sent = transfer::changed(read, RowChange::Uploading { total: size });
            let done = transfer::changed(sent, RowChange::Done { total });
            &&& read.status is Reading && read.bytes_done == part && read.bytes_total == size
            &&& sent.status is Uploading && sent.bytes_done == sent.bytes_total
            &&& done.status is Done && done.bytes_done == total && done.bytes_total == total
            &&& done.error is None
        }),
{
}

/// A planned upload waits in the list with what it is sent from and to, and
/// nothing done yet.
pub proof fn law_planned_upload_waits(
    instance: Seq<char>,
    session_id: Seq<char>,
    path: std::path::PathBuf,
    name: Seq<char>,
    now: u64,
)
    ensures
        ({
            let r = uploads::queued_row(instance, session_id, path, name, now);
            &&& r.direction is Upload
            &&& r.instance == instance
            &&& r.session_id == session_id
            &&& r.remote_name == name
            &&& r.local_path == Some(path)
            &&& r.source_url is None
            &&& r.status is Queued
            &&& r.bytes_total == 0
            &&& r.bytes_done == 0
            &&& r.error is None
            &&& r.created_at == now
        }),
{
}

/// A download that was fetched stands in the list as done, with all of its
/// bytes.
pub proof fn law_fetched_download_is_done(
    instance: Seq<char>,
    session_id: Seq<char>,
    name: Seq<char>,
    path: std::path::PathBuf,
    total: u64,
    now: u64,
)
    ensures
        ({
            let r = uploads::fetched_row(instance, session_id, name, path, total, now);
            &&& r.direction is Download
            &&& r.instance == instance
            &&& r.session_id == session_id
            &&& r.remote_name == name
            &&& r.local_path == Some(path)
            &&& r.source_url is None
            &&& r.status is Done
            &&& r.bytes_total == total
            &&& r.bytes_done == total
            &&& r.error is None
            &&& r.created_at == now
        }),
{
}

/// A download of the webview is shown from where it came, at the time at which
/// it was asked for, as done where it succeeded and else as failed with a
/// reason; under the name of its file where there is one.
pub proof fn law_webview_download_is_shown(record: DownloadRecord, name: Option<Seq<char>>)
    ensures
        ({
            let r = transfer::mirror_row(record, name);
            &&& r.direction is Download
            &&& r.source_url == Some(record.url@)
            &&& r.created_at == record.requested_at_secs
            &&& r.local_path == record.path
            &&& name matches Some(n) ==> r.remote_name == n
            &&& name is None ==> r.remote_name == "download"@
            &&& record.success ==> r.status is Done && r.error is None
            &&& !record.success ==> r.status is Failed && r.error == Some(
                "the download was interrupted"@,
            )
            &&& r.instance.len() == 0
            &&& r.session_id.len() == 0
            &&& r.bytes_total == 0
            &&& r.bytes_done == 0
        }),
{
}

/// A download is in the list exactly where a row has its address and its time;
/// one more download is added to the list exactly where it is not.
pub proof fn law_only_new_downloads_are_added(
    rows: Seq<RowModel>,
    row: RowModel,
    records: Seq<DownloadRecord>,
    record: DownloadRecord,
)
    ensures
        !transfer::mirrored(Seq::empty(), record),
        transfer::mirrored(rows.push(row), record) <==> transfer::mirrored(rows, record) || (
        row.source_url == Some(record.url@) && row.created_at == record.requested_at_secs),
        records.push(record).filter(transfer::unmirrored(rows)) == (if transfer::mirrored(
            rows,
            record,
        ) {
            records.filter(transfer::unmirrored(rows))
        } else {
            records.filter(transfer::unmirrored(rows)).push(record)
        }),
{
    seqs::lemma_filter_push(records, record, transfer::unmirrored(rows));
    let all = rows.push(row);
    if transfer::mirrored(rows, record) {
        let k = choose|k: int|
            0 <= k < rows.len() && (#[trigger] rows[k]).source_url == Some(record.url@)
                && rows[k].created_at == record.requested_at_secs;
        assert(all[k].source_url == Some(record.url@));
    }
    if row.source_url == Some(record.url@) && row.created_at == record.requested_at_secs {
        assert(all[rows.len() as int].source_url == Some(record.url@));
    }
    if transfer::mirrored(all, record) {
        let k = choose|k: int|
            0 <= k < all.len() && (#[trigger] all[k]).source_url == Some(record.url@)
                && all[k].created_at == record.requested_at_secs;
        if k < rows.len() {
            assert(rows[k].source_url == Some(record.url@));
        }
    }
}

/// A transfer is shown as it stands in the list. It can be tried again exactly
/// where it is an upload that failed, its folder can be opened exactly where
/// its file is there, and it can be saved again exactly where it came from a
/// drive.
pub proof fn law_transfer_is_shown_as_it_stands(
    t: RowModel,
    name: Option<Seq<char>>,
    present: bool,
    from_drive: bool,
)
    ensures
        ({
            let v = transfer::row_shown(t, name, present, from_drive);
            &&& v.id == t.id
            &&& v.remote_name == t.remote_name
            &&& v.local_name == name
            &&& v.bytes_total == t.bytes_total
            &&& v.bytes_done == t.bytes_done
            &&& v.error == t.error
            &&& v.created_at == t.created_at
            &&& v.source_url == t.source_url
            &&& v.can_retry <==> t.direction is Upload && t.status is Failed
            &&& v.can_open_folder <==> t.local_path is Some && present
            &&& v.can_save_as <==> from_drive
            &&& t.direction is Upload ==> v.direction == "upload"@
            &&& t.direction is Download ==> v.direction == "download"@
            &&& t.status is Queued ==> v.status == "queued"@
            &&& t.status is Reading ==> v.status == "reading"@
            &&& t.status is Uploading ==> v.status == "uploading"@
            &&& t.status is Downloading ==> v.status == "downloading"@
            &&& t.status is Done ==> v.status == "done"@
            &&& t.status is Failed ==> v.status == "failed"@
            &&& t.status is Cancelled ==> v.status == "cancelled"@
        }),
{
}

/// A view shows the transfer that it displays, with the name that the operating
/// system gives for its local file; it can be saved again exactly where it came
/// from an address of a drive.
pub proof fn law_view_displays_its_transfer(v: transfer::RowShown, t: RowModel, present: bool)
    requires
        transfer::displays(v, t, present),
    ensures
        v.id == t.id,
        v.remote_name == t.remote_name,
        v.status == transfer::status_word(t.status),
        v.direction == transfer::direction_word(t.direction),
        v.bytes_total == t.bytes_total,
        v.bytes_done == t.bytes_done,
        v.error == t.error,
        v.created_at == t.created_at,
        v.source_url == t.source_url,
        v.can_retry <==> t.direction is Upload && t.status is Failed,
        v.can_open_folder <==> t.local_path is Some && present,
        v.can_save_as <==> t.source_url is Some && drive::drive_target(t.source_url->0) is Some,
        t.local_path is None ==> v.local_name is None,
        exists|name: Option<String>| #[trigger]
            web::named(t.local_path, name) && v.local_name == text::opt_text(name),
{
}

/// The rows for downloads of the webview are one for each, in their order, each
/// from where its download came, as it ended, and under the name that the
/// operating system gives for its file.
pub proof fn law_rows_show_their_downloads(
    rows: Seq<RowModel>,
    records: Seq<DownloadRecord>,
    i: int,
)
    requires
        transfer::mirrors(rows, records),
        0 <= i < rows.len(),
    ensures
        rows.len() == records.len(),
        rows[i].source_url == Some(records[i].url@),
        rows[i].created_at == records[i].requested_at_secs,
        rows[i].local_path == records[i].path,
        rows[i].status is Done <==> records[i].success,
        rows[i].status is Failed <==> !records[i].success,
        rows[i].direction is Download,
        exists|name: Option<String>| #[trigger]
            web::named(records[i].path, name) && rows[i].remote_name == (match name {
                Some(n) => n@,
                None => "download"@,
            }),
{
    assert(transfer::shows(rows[i], records[i]));
}

/// A file above the cap is refused before it is read, and its row stays as it
/// is.
pub proof fn law_large_files_are_refused(path: String, size: u64)
    requires
        size > uploads::SHELL_UPLOAD_CAP_BYTES,
    ensures
        uploads::upload_next(UploadEvent::Sized { path, size: Ok(size) }).0 is None,
        uploads::upload_next(UploadEvent::Sized { path, size: Ok(size) }).1 matches
            ActionModel::Finish(r) && r is Err,
{
}

/// A file of at most one gibibyte is read, and its row says so; a larger one,
/// and one that cannot be looked up, ends the upload with the reason.
pub proof fn law_files_up_to_a_gibibyte_are_read(path: String, size: Result<u64, String>)
    ensures
        ({
            let (change, action) = uploads::upload_next(UploadEvent::Sized { path, size });
            &&& size matches Ok(n) ==> (n <= 1024 * 1024 * 1024 ==> change == Some(
                RowChange::Reading { total: n },
            ) && action == (ActionModel::Read { total: n }))
            &&& size matches Ok(n) ==> (n > 1024 * 1024 * 1024 ==> change is None && action
                == ActionModel::Finish(
                Err(
                    path@
                        + " is larger than the 1 GiB drag-drop cap; use the upload button inside the session"@,
                ),
            ))
            &&& size matches Err(e) ==> change is None && action == ActionModel::Finish(
                Err("cannot stat "@ + path@ + ": "@ + e@),
            )
        }),
{
}

/// An upload that was read looks for its credential, and is sent with it; what
/// fails on the way, and a missing credential, ends it with the reason, and its
/// row stays as it is until then.
pub proof fn law_upload_goes_step_by_step(
    done: u64,
    total: u64,
    result: Result<(), String>,
    token: Option<String>,
)
    ensures
        uploads::upload_next(UploadEvent::Progress { done }) == (
            Some(RowChange::Progress { done }),
            ActionModel::Wait,
        ),
        result is Ok ==> uploads::upload_next(UploadEvent::Read { total, result }) == (
            Some(RowChange::Uploading { total }),
            ActionModel::FindToken,
        ),
        result matches Err(e) ==> uploads::upload_next(UploadEvent::Read { total, result }) == (
            None::<RowChange>,
            ActionModel::Finish(Err(e@)),
        ),
        token matches Some(t) ==> uploads::upload_next(UploadEvent::Token(token)) == (
            None::<RowChange>,
            ActionModel::Send { bearer: t@ },
        ),
        token is None ==> uploads::upload_next(UploadEvent::Token(token)) == (
            None::<RowChange>,
            ActionModel::Finish(Err("no paired token for this instance"@)),
        ),
{
}

/// The reply to an upload ends it, with what the status and the body of the
/// reply tell; a request that failed ends it with the failure.
pub proof fn law_reply_ends_the_upload(sent: u64, reply: Result<DriveResponse, String>)
    ensures
        ({
            let (change, action) = uploads::upload_next(UploadEvent::Sent { sent, reply });
            &&& change is None
            &&& reply matches Err(e) ==> action == ActionModel::Finish(Err(e@))
            &&& reply matches Ok(resp) ==> action == ActionModel::Finish(
                uploads::upload_told(
                    resp.status,
                    web::json_u64(resp.body@, "size"@),
                    web::json_text(resp.body@, "error"@),
                    sent,
                ),
            )
        }),
{
}

/// An upload succeeded exactly where the server says that it made the file: the
/// size is then what the server tells, else what was sent. Any other reply is a
/// failure that names its reason.
pub proof fn law_upload_succeeds_where_the_file_was_made(
    status: u16,
    size: Option<u64>,
    message: Option<Seq<char>>,
    sent: u64,
)
    ensures
        ({
            let r = uploads::upload_told(status, size, message, sent);
            &&& r is Ok <==> status == 201
            &&& status == 201 && size is Some ==> r->Ok_0 == size->0
            &&& status == 201 && size is None ==> r->Ok_0 == sent
            &&& status == 401 ==> r->Err_0 == "upload failed ("@
                + "the paired token was rejected; re-pair the device"@ + ")"@
            &&& status == 403 ==> r->Err_0 == "upload failed ("@
                + "the paired token does not own this session"@ + ")"@
            &&& status != 201 && status != 401 && status != 403 && message is Some ==> r->Err_0
                == "upload failed ("@ + message->0 + ")"@
            &&& status != 201 && status != 401 && status != 403 && message is None ==> r->Err_0
                == "upload failed ("@ + ("HTTP "@ + text::decimal(status as nat)) + ")"@
        }),
{
}

// ---------------------------------------------------------------------------
// Names
// ---------------------------------------------------------------------------

/// Where the extension of a name begins lies in the name.
proof fn lemma_extension(name: Seq<char>)
    ensures
        0 <= plan::extension_at(name) <= name.len(),
    decreases name.len(),
{
    lemma_last_dot(name);
}

/// The last dot lies in the name.
proof fn lemma_last_dot(s: Seq<char>)
    ensures
        0 <= plan::last_dot(s),
        s.len() > 0 ==> plan::last_dot(s) < s.len(),
        s.len() == 0 ==> plan::last_dot(s) == 0,
    decreases s.len(),
{
    if s.len() > 0 && s.last() != '.' {
        lemma_last_dot(s.drop_last());
    }
}

/// Different numbers give different names.
proof fn lemma_numbered_differ(name: Seq<char>, m: nat, n: nat)
    requires
        plan::numbered(name, m) == plan::numbered(name, n),
    ensures
        m == n,
{
    lemma_extension(name);
    reveal_strlit(" (");
    reveal_strlit(")");
    text::lemma_decimal(m);
    text::lemma_decimal(n);
    let at = plan::extension_at(name);
    let a = plan::numbered(name, m);
    let ext = name.skip(at);
    let dm = text::decimal(m);
    let dn = text::decimal(n);
    assert(a.len() == at + 2 + dm.len() + 1 + ext.len());
    assert(a.len() == at + 2 + dn.len() + 1 + ext.len());
    assert(a.subrange(at + 2, at + 2 + dm.len()) =~= dm);
    assert(a.subrange(at + 2, at + 2 + dn.len()) =~= dn);
}

/// What the search for a free number finds.
proof fn lemma_free_number(name: Seq<char>, existing: Seq<Seq<char>>, n: nat)
    requires
        n <= 10_000,
    ensures
        n <= plan::free_number(name, existing, n) <= 10_000,
        plan::free_number(name, existing, n) < 10_000 ==> !plan::number_taken(
            name,
            existing,
            plan::free_number(name, existing, n),
        ),
        forall|k: nat|
            n <= k < plan::free_number(name, existing, n) ==> #[trigger] plan::number_taken(
                name,
                existing,
                k,
            ),
    decreases 10_000 - n,
{
    if n < 10_000 && plan::number_taken(name, existing, n) {
        lemma_free_number(name, existing, n + 1);
    }
}

/// Fewer names than there are numbers cannot take them all.
proof fn lemma_numbers_last(name: Seq<char>, existing: Seq<Seq<char>>)
    requires
        existing.len() < 9_999,
    ensures
        plan::free_number(name, existing, 1) < 10_000,
{
    lemma_free_number(name, existing, 1);
    let n = plan::free_number(name, existing, 1);
    if n == 10_000 {
        let all = Seq::new(9_999, |i: int| plan::numbered(name, (i + 1) as nat));
        assert forall|i: int, j: int|
            0 <= i < all.len() && 0 <= j < all.len() && i != j implies all[i] != all[j] by {
            if all[i] == all[j] {
                lemma_numbered_differ(name, (i + 1) as nat, (j + 1) as nat);
            }
        }
        assert(all.no_duplicates());
        all.unique_seq_to_set();
        existing.lemma_cardinality_of_set();
        assert forall|x: Seq<char>| all.to_set().contains(x) implies existing.to_set().contains(
            x,
        ) by {
            assert(all.contains(x));
            let i = choose|i: int| 0 <= i < all.len() && all[i] == x;
            assert(plan::number_taken(name, existing, (i + 1) as nat));
        }
        vstd::set_lib::lemma_len_subset(all.to_set(), existing.to_set());
    }
}

/// A file whose name is taken gets a name that is not taken, where fewer than
/// ten thousand less one names are.
pub proof fn law_new_name_is_free(name: Seq<char>, existing: Seq<Seq<char>>, stamp: u128)
    requires
        existing.len() < 9_999,
    ensures
        !existing.contains(plan::renamed(name, existing, stamp)),
{
    lemma_free_number(name, existing, 1);
    lemma_numbers_last(name, existing);
}

/// Where not all numbers up to ten thousand are taken, the search ends at the
/// first that is free.
pub proof fn law_free_number_is_the_first(name: Seq<char>, existing: Seq<Seq<char>>) -> (n: nat)
    requires
        existing.len() < 9_999,
    ensures
        n == plan::free_number(name, existing, 1),
        1 <= n < 10_000,
        !existing.contains(plan::numbered(name, n)),
        forall|k: nat| 1 <= k < n ==> existing.contains(#[trigger] plan::numbered(name, k)),
{
    lemma_free_number(name, existing, 1);
    let n = plan::free_number(name, existing, 1);
    lemma_numbers_last(name, existing);
    assert forall|k: nat| 1 <= k < n implies existing.contains(
        #[trigger] plan::numbered(name, k),
    ) by {
        assert(plan::number_taken(name, existing, k));
    }
    n
}

/// A file name that was made plain has no reserved character and does not
/// begin with a dot.
pub proof fn law_file_name_is_plain(raw: Seq<char>)
    requires
        downloads::file_name(raw) is Some,
    ensures
        forall|i: int|
            0 <= i < downloads::file_name(raw)->0.len() ==> !downloads::reserved(
                #[trigger] downloads::file_name(raw)->0[i],
            ),
        downloads::file_name(raw)->0.len() > 0,
        downloads::file_name(raw)->0.first() != '.',
{
    let all = raw.map_values(|c: char| downloads::plain(c));
    lemma_trim_start(all, '.');
    let name = downloads::file_name(raw)->0;
    assert forall|i: int| 0 <= i < name.len() implies !downloads::reserved(#[trigger] name[i]) by {
        let k = i + (all.len() - name.len());
        assert(name[i] == all[k]);
        assert(all[k] == downloads::plain(raw[k]));
    }
}

/// A text trimmed at its start is the rest of the whole, and begins otherwise.
proof fn lemma_trim_start(s: Seq<char>, c: char)
    ensures
        text::trim_start(s, c).len() <= s.len(),
        text::trim_start(s, c) == s.skip(s.len() - text::trim_start(s, c).len()),
        text::trim_start(s, c).len() > 0 ==> text::trim_start(s, c).first() != c,
    decreases s.len(),
{
    if s.len() > 0 && s.first() == c {
        lemma_trim_start(s.drop_first(), c);
        assert(text::trim_start(s, c) =~= s.skip(s.len() - text::trim_start(s, c).len()));
    } else {
        assert(s.skip(0) =~= s);
    }
}

// ---------------------------------------------------------------------------
// Plans
// ---------------------------------------------------------------------------

/// How a plan relates to the names that are taken.
proof fn lemma_plan(
    raws: Seq<Option<Seq<char>>>,
    existing: Seq<Seq<char>>,
    choices: Seq<ConflictChoice>,
    stamps: Seq<u128>,
)
    requires
        choices.len() == raws.len(),
        stamps.len() == raws.len(),
        existing.len() + raws.len() < 9_999,
    ensures
        ({
            let p = plan::plan(raws, existing, choices, stamps);
            &&& p.taken.len() <= existing.len() + raws.len()
            &&& forall|x: Seq<char>| existing.contains(x) ==> #[trigger] p.taken.contains(x)
            &&& forall|j: int|
                0 <= j < p.planned.len() ==> p.taken.contains((#[trigger] p.planned[j]).1)
            &&& forall|j: int|
                0 <= j < p.planned.len() ==> 0 <= (#[trigger] p.planned[j]).0 < raws.len()
            &&& forall|j: int|
                0 <= j < p.planned.len() && existing.contains((#[trigger] p.planned[j]).1)
                    ==> choices[p.planned[j].0] is Overwrite
            &&& forall|i: int, j: int|
                0 <= i < j < p.planned.len() ==> (#[trigger] p.planned[i]).0 < (
                #[trigger] p.planned[j]).0 && (p.planned[i].1 == p.planned[j].1
                    ==> choices[p.planned[j].0] is Overwrite)
        }),
    decreases raws.len(),
{
    if raws.len() > 0 {
        let cs = choices.drop_last();
        let ss = stamps.drop_last();
        let n = raws.len() - 1;
        lemma_plan(raws.drop_last(), existing, cs, ss);
        let q = plan::plan(raws.drop_last(), existing, cs, ss);
        let p = plan::plan(raws, existing, choices, stamps);
        match plan::usable(raws.last()) {
            None => {},
            Some(base) => {
                let fresh = plan::renamed(base, q.taken, stamps.last());
                if q.taken.contains(base) {
                    law_new_name_is_free(base, q.taken, stamps.last());
                }
                assert forall|x: Seq<char>| q.taken.contains(x) implies #[trigger] p.taken.contains(
                    x,
                ) by {
                    let k = choose|k: int| 0 <= k < q.taken.len() && q.taken[k] == x;
                    assert(p.taken[k] == x);
                }
                if p.taken.len() > q.taken.len() {
                    assert(p.taken[q.taken.len() as int] == p.planned.last().1);
                }
                assert forall|j: int| 0 <= j < p.planned.len() implies p.taken.contains(
                    (#[trigger] p.planned[j]).1,
                ) by {
                    if j < q.planned.len() {
                        assert(p.planned[j] == q.planned[j]);
                    }
                }
                assert forall|j: int| 0 <= j < q.planned.len() implies p.planned[j]
                    == #[trigger] q.planned[j] && choices[q.planned[j].0]
                    == cs[q.planned[j].0] by {}
                assert(choices[n] == choices.last());
            },
        }
    }
}

/// No file in the drive is replaced unless the user said so: a file goes under
/// a name that is there only by the choice to overwrite.
pub proof fn law_nothing_is_overwritten_unasked(
    raws: Seq<Option<Seq<char>>>,
    existing: Seq<Seq<char>>,
    choices: Seq<ConflictChoice>,
    stamps: Seq<u128>,
    j: int,
)
    requires
        choices.len() == raws.len(),
        stamps.len() == raws.len(),
        existing.len() + raws.len() < 9_999,
        0 <= j < plan::plan(raws, existing, choices, stamps).planned.len(),
        existing.contains(plan::plan(raws, existing, choices, stamps).planned[j].1),
    ensures
        choices[plan::plan(raws, existing, choices, stamps).planned[j].0] is Overwrite,
{
    lemma_plan(raws, existing, choices, stamps);
}

/// A choice of a plan is one that the user made for the name that was taken,
/// and its stamp one that the clock told.
pub proof fn law_choices_are_those_of_the_user<D: FnMut(&str) -> ConflictChoice>(
    decide: D,
    raws: Seq<Option<Seq<char>>>,
    existing: Seq<Seq<char>>,
    choices: Seq<ConflictChoice>,
    stamps: Seq<u128>,
    i: int,
)
    requires
        plan::chosen(decide, raws, existing, choices, stamps),
        0 <= i < raws.len(),
        plan::conflicts(raws, existing, choices, stamps, i),
    ensures
        plan::usable(raws[i]) is Some,
        exists|s: &str|
            s@ == plan::usable(raws[i])->0 && #[trigger] call_ensures(decide, (s,), choices[i]),
        web::clock_told(stamps[i]),
{
    assert(plan::made_for(decide, plan::usable(raws[i])->0, choices[i]));
}

/// A user who never says to overwrite loses nothing: no file of the drive is
/// sent over, whatever files are dropped.
pub proof fn law_who_never_overwrites_loses_nothing<D: FnMut(&str) -> ConflictChoice>(
    decide: D,
    raws: Seq<Option<Seq<char>>>,
    existing: Seq<Seq<char>>,
    choices: Seq<ConflictChoice>,
    stamps: Seq<u128>,
    j: int,
)
    requires
        choices.len() == raws.len(),
        stamps.len() == raws.len(),
        existing.len() + raws.len() < 9_999,
        plan::chosen(decide, raws, existing, choices, stamps),
        forall|s: &str, choice: ConflictChoice| #[trigger]
            call_ensures(decide, (s,), choice) ==> !(choice is Overwrite),
        0 <= j < plan::plan(raws, existing, choices, stamps).planned.len(),
    ensures
        !existing.contains(plan::plan(raws, existing, choices, stamps).planned[j].1),
{
    let planned = plan::plan(raws, existing, choices, stamps).planned;
    let name = planned[j].1;
    let i = planned[j].0;
    if existing.contains(name) {
        law_nothing_is_overwritten_unasked(raws, existing, choices, stamps, j);
        law_files_are_planned_in_order(raws, existing, choices, stamps);
        assert(goes(raws, existing, choices, stamps, i));
        assert(name == goes_as(raws, existing, choices, stamps, i));
        lemma_plan(raws.take(i), existing, choices.take(i), stamps.take(i));
        assert(plan::conflicts(raws, existing, choices, stamps, i));
        law_choices_are_those_of_the_user(decide, raws, existing, choices, stamps, i);
    }
}

/// Two files of one plan go under one name only by the choice to overwrite,
/// made for the later one; and the files keep their order.
pub proof fn law_planned_names_differ(
    raws: Seq<Option<Seq<char>>>,
    existing: Seq<Seq<char>>,
    choices: Seq<ConflictChoice>,
    stamps: Seq<u128>,
    i: int,
    j: int,
)
    requires
        choices.len() == raws.len(),
        stamps.len() == raws.len(),
        existing.len() + raws.len() < 9_999,
        0 <= i < j < plan::plan(raws, existing, choices, stamps).planned.len(),
    ensures
        ({
            let p = plan::plan(raws, existing, choices, stamps).planned;
            &&& p[i].0 < p[j].0
            &&& p[i].1 == p[j].1 ==> choices[p[j].0] is Overwrite
        }),
{
    lemma_plan(raws, existing, choices, stamps);
}

/// Without conflicts every file with a usable name goes under that name.
pub proof fn law_free_names_are_kept(
    p: plan::PlanModel,
    file: int,
    raw: Option<Seq<char>>,
    choice: ConflictChoice,
    stamp: u128,
)
    requires
        plan::usable(raw) is Some,
        !p.taken.contains(plan::usable(raw)->0),
    ensures
        plan::plan_one(p, file, raw, choice, stamp).planned == p.planned.push(
            (file, plan::usable(raw)->0),
        ),
{
}

/// Whether a file of a plan is sent: it has a usable name, and where that is
/// taken the choice is not to cancel.
pub open spec fn goes(
    raws: Seq<Option<Seq<char>>>,
    existing: Seq<Seq<char>>,
    choices: Seq<ConflictChoice>,
    stamps: Seq<u128>,
    i: int,
) -> bool {
    plan::usable(raws[i]) is Some && !(plan::conflicts(raws, existing, choices, stamps, i)
        && choices[i] is Cancel)
}

/// The name under which a file of a plan goes: its own, unless that is taken
/// and the choice is a new one.
pub open spec fn goes_as(
    raws: Seq<Option<Seq<char>>>,
    existing: Seq<Seq<char>>,
    choices: Seq<ConflictChoice>,
    stamps: Seq<u128>,
    i: int,
) -> Seq<char> {
    let base = plan::usable(raws[i])->0;
    if plan::conflicts(raws, existing, choices, stamps, i) && choices[i] is Rename {
        plan::renamed(
            base,
            plan::plan(raws.take(i), existing, choices.take(i), stamps.take(i)).taken,
            stamps[i],
        )
    } else {
        base
    }
}

/// Files are planned in their order, each once: all but those without a usable
/// name and those whose name is taken and that the user cancelled, under their
/// own names unless a new one was chosen.
pub proof fn law_files_are_planned_in_order(
    raws: Seq<Option<Seq<char>>>,
    existing: Seq<Seq<char>>,
    choices: Seq<ConflictChoice>,
    stamps: Seq<u128>,
)
    requires
        choices.len() == raws.len(),
        stamps.len() == raws.len(),
    ensures
        ({
            let planned = plan::plan(raws, existing, choices, stamps).planned;
            &&& forall|a: int, b: int|
                0 <= a < b < planned.len() ==> (#[trigger] planned[a]).0 < (#[trigger] planned[b]).0
            &&& forall|a: int|
                0 <= a < planned.len() ==> 0 <= (#[trigger] planned[a]).0 < raws.len() && goes(
                    raws,
                    existing,
                    choices,
                    stamps,
                    planned[a].0,
                ) && planned[a].1 == goes_as(raws, existing, choices, stamps, planned[a].0)
            &&& forall|i: int|
                0 <= i < raws.len() && #[trigger] goes(raws, existing, choices, stamps, i)
                    ==> planned.contains((i, goes_as(raws, existing, choices, stamps, i)))
        }),
    decreases raws.len(),
{
    if raws.len() > 0 {
        let n = raws.len() - 1;
        let (rs, cs, ss) = (raws.drop_last(), choices.drop_last(), stamps.drop_last());
        law_files_are_planned_in_order(rs, existing, cs, ss);
        let before = plan::plan(rs, existing, cs, ss).planned;
        let planned = plan::plan(raws, existing, choices, stamps).planned;
        assert(raws.take(n) =~= rs && choices.take(n) =~= cs && stamps.take(n) =~= ss);
        assert forall|i: int| 0 <= i < n implies #[trigger] goes(
            raws,
            existing,
            choices,
            stamps,
            i,
        ) == goes(rs, existing, cs, ss, i) && goes_as(raws, existing, choices, stamps, i)
            == goes_as(rs, existing, cs, ss, i) by {
            assert(raws.take(i) =~= rs.take(i));
            assert(choices.take(i) =~= cs.take(i));
            assert(stamps.take(i) =~= ss.take(i));
        }
        let last = (n, goes_as(raws, existing, choices, stamps, n));
        assert(planned == (if goes(raws, existing, choices, stamps, n) {
            before.push(last)
        } else {
            before
        }));
        assert forall|a: int| 0 <= a < planned.len() implies 0 <= (#[trigger] planned[a]).0
            < raws.len() && goes(raws, existing, choices, stamps, planned[a].0) && planned[a].1
            == goes_as(raws, existing, choices, stamps, planned[a].0) by {
            if a < before.len() {
                assert(planned[a] == before[a]);
                assert(goes(rs, existing, cs, ss, before[a].0));
                assert(goes(raws, existing, choices, stamps, before[a].0));
            }
        }
        assert forall|a: int, b: int| 0 <= a < b < planned.len() implies (#[trigger] planned[a]).0
            < (#[trigger] planned[b]).0 by {
            assert(planned[a] == before[a]);
            if b < before.len() {
                assert(planned[b] == before[b]);
            }
        }
        assert forall|i: int|
            0 <= i < raws.len() && #[trigger] goes(
                raws,
                existing,
                choices,
                stamps,
                i,
            ) implies planned.contains((i, goes_as(raws, existing, choices, stamps, i))) by {
            if i < n {
                assert(goes(rs, existing, cs, ss, i));
                let at = (i, goes_as(rs, existing, cs, ss, i));
                let a = choose|a: int| 0 <= a < before.len() && before[a] == at;
                assert(planned[a] == at);
            } else {
                assert(planned[before.len() as int] == last);
            }
        }
    }
}

/// The user is asked about exactly the names that are taken when their files
/// come, one file after the other: going on from a file, the next question is
/// about the first file whose name is taken, and without one there is none.
pub proof fn law_taken_names_are_asked_in_order(
    m: RunModel,
    existing: Seq<Seq<char>>,
    choices: Seq<ConflictChoice>,
    stamps: Seq<u128>,
)
    requires
        0 <= m.at <= m.raws.len(),
        choices.len() == m.at,
        stamps.len() == m.at,
        m.plan == plan::plan(m.raws.take(m.at), existing, choices, stamps),
    ensures
        ({
            let after = plan::settled(m);
            let cs = plan::padded(choices, after.at);
            let ss = plan::padded_stamps(stamps, after.at);
            &&& m.at <= after.at <= m.raws.len()
            &&& after.plan == plan::plan(m.raws.take(after.at), existing, cs, ss)
            &&& forall|i: int|
                m.at <= i < after.at ==> !#[trigger] plan::conflicts(m.raws, existing, cs, ss, i)
            &&& match plan::question(after) {
                Some(name) => after.at < m.raws.len() && plan::conflicts(
                    m.raws,
                    existing,
                    cs,
                    ss,
                    after.at,
                ) && plan::usable(m.raws[after.at]) == Some(name),
                None => after.at == m.raws.len(),
            }
        }),
{
    plan::lemma_settled(m, existing, choices, stamps);
}

// ---------------------------------------------------------------------------
// Tokens of the double-submit rule
// ---------------------------------------------------------------------------

/// A stored token is read back, with and without slashes at the end of the
/// URL, and the tokens of other servers stay.
pub proof fn law_stored_token_is_read_back(
    before: Map<Seq<char>, String>,
    after: Map<Seq<char>, String>,
    instance: Seq<char>,
    token: Seq<char>,
    other: Seq<char>,
)
    requires
        drive::token_stored(before, after, instance, token),
    ensures
        drive::token_of(after, instance) == Some(token),
        drive::token_of(after, instance.push('/')) == Some(token),
        text::trim_end(other, '/') != text::trim_end(instance, '/') ==> drive::token_of(
            after,
            other,
        ) == drive::token_of(before, other),
{
    assert(instance.push('/').drop_last() =~= instance);
}

/// A request that writes carries the token twice, once as a cookie and once as
/// a header, where the server has one.
pub proof fn law_token_goes_along_twice(bearer: Seq<char>, token: Seq<char>)
    ensures
        drive::write_headers(bearer, Some(token)).contains(
            ("cookie"@, http::CSRF_COOKIE@ + "="@ + token),
        ),
        drive::write_headers(bearer, Some(token)).contains((http::CSRF_HEADER@, token)),
{
    let h = drive::write_headers(bearer, Some(token));
    assert(h[2] == ("cookie"@, http::CSRF_COOKIE@ + "="@ + token));
    assert(h[3] == (http::CSRF_HEADER@, token));
}

// ---------------------------------------------------------------------------
// Bytes
// ---------------------------------------------------------------------------

/// Whether `coded` writes `plain` with some bytes escaped: each byte stands for
/// itself, unless it is a percent sign, or is written as a percent sign and two
/// hexadecimal digits.
pub open spec fn escapes(plain: Seq<u8>, coded: Seq<u8>) -> bool
    decreases plain.len(),
{
    if plain.len() == 0 {
        coded.len() == 0
    } else {
        ||| coded.len() > 0 && coded[0] == plain[0] && plain[0] != 0x25 && escapes(
            plain.skip(1),
            coded.skip(1),
        )
        ||| drive::escaped(coded) && drive::hex_value(coded[1])->0 * 16 + drive::hex_value(
            coded[2],
        )->0 == plain[0] && escapes(plain.skip(1), coded.skip(3))
    }
}

/// Decoding gives back what was escaped.
pub proof fn law_decoding_undoes_escaping(plain: Seq<u8>, coded: Seq<u8>)
    requires
        escapes(plain, coded),
    ensures
        drive::unescaped(coded) == plain,
    decreases plain.len(),
{
    if plain.len() > 0 {
        let rest = plain.skip(1);
        if coded.len() > 0 && coded[0] == plain[0] && plain[0] != 0x25 && escapes(
            rest,
            coded.skip(1),
        ) {
            law_decoding_undoes_escaping(rest, coded.skip(1));
            assert(seq![coded[0]] + rest =~= plain);
        } else {
            law_decoding_undoes_escaping(rest, coded.skip(3));
            assert(seq![plain[0]] + rest =~= plain);
        }
    }
}

/// Pieces one after the other.
pub open spec fn joined(pieces: Seq<Seq<u8>>) -> Seq<u8>
    decreases pieces.len(),
{
    if pieces.len() == 0 {
        Seq::empty()
    } else {
        joined(pieces.drop_last()) + pieces.last()
    }
}

/// How many bytes the pieces have.
pub open spec fn byte_count(pieces: Seq<Seq<u8>>) -> nat
    decreases pieces.len(),
{
    if pieces.len() == 0 {
        0
    } else {
        byte_count(pieces.drop_last()) + pieces.last().len()
    }
}

/// What was handed out, and what is still gathered, after the pieces came in.
pub open spec fn streamed(pieces: Seq<Seq<u8>>) -> (Seq<Seq<u8>>, Seq<u8>)
    decreases pieces.len(),
{
    if pieces.len() == 0 {
        (Seq::empty(), Seq::empty())
    } else {
        let before = streamed(pieces.drop_last());
        let (out, rest) = drive::gathered(before.1, pieces.last());
        match out {
            Some(piece) => (before.0.push(piece), rest),
            None => (before.0, rest),
        }
    }
}

/// A download is written as it came: what was handed out and what is still
/// gathered is all that came in, in order; less than the flush size waits; and
/// as many bytes are written as the pieces have.
pub proof fn law_stream_keeps_the_bytes(pieces: Seq<Seq<u8>>)
    ensures
        joined(streamed(pieces).0) + streamed(pieces).1 == joined(pieces),
        streamed(pieces).1.len() < drive::STREAM_FLUSH_BYTES,
        joined(pieces).len() == byte_count(pieces),
    decreases pieces.len(),
{
    if pieces.len() > 0 {
        law_stream_keeps_the_bytes(pieces.drop_last());
        let before = streamed(pieces.drop_last());
        let (out, rest) = drive::gathered(before.1, pieces.last());
        if out is Some {
            let piece = out->0;
            assert(before.0.push(piece).drop_last() =~= before.0);
            assert(joined(before.0.push(piece)) + rest =~= joined(pieces));
        } else {
            assert(joined(before.0) + rest =~= joined(pieces));
        }
    } else {
        assert(joined(streamed(pieces).0) + streamed(pieces).1 =~= joined(pieces));
    }
}

} // verus!

//! What the models that contracts speak of say of the values behind them:
//! every field is in its model, as it is.

use vstd::prelude::*;

use crate::commands;
use crate::commands::AddRequest;
use crate::drive;
use crate::drive::{DriveEntry, DriveRequest};
use crate::instances;
use crate::instances::{CachedProbe, Instance, InstanceStore, StoreFile};
use crate::pairing::{OutcomeModel, PollOutcome};
use crate::pairing_commands;
use crate::plan;
use crate::plan::PlanRun;
use crate::probe;
use crate::probe::{InstanceView, ProbeView, StatusReply};
use crate::provisioning::{ProvisionFile, ProvisionedInstance};
use crate::text;
use crate::textmap;
use crate::tokens;
use crate::tokens::{RegisteredToken, TokenRegistry};
use crate::transfer;
use crate::transfer::{Transfer, TransferView, Transfers};
use crate::uploads;
use crate::uploads::{ActionModel, UploadAction};
use crate::web;
use crate::web::UrlParts;

verus! {

// ---------------------------------------------------------------------------
// Texts
// ---------------------------------------------------------------------------

/// The model of a text that may be missing, or of a failure in its place, is
/// the text or the failure.
pub proof fn law_texts_are_their_characters(
    o: Option<String>,
    s: Option<&str>,
    r: Result<String, String>,
    v: Seq<String>,
    w: Seq<Option<String>>,
    i: int,
)
    ensures
        text::opt_text(o) is Some <==> o is Some,
        o matches Some(t) ==> text::opt_text(o) == Some(t@),
        text::opt_str(s) is Some <==> s is Some,
        s matches Some(t) ==> text::opt_str(s) == Some(t@),
        text::result_text(r) is Ok <==> r is Ok,
        r matches Ok(t) ==> text::result_text(r)->Ok_0 == t@,
        r matches Err(e) ==> text::result_text(r)->Err_0 == e@,
        text::texts(v).len() == v.len(),
        0 <= i < v.len() ==> text::texts(v)[i] == v[i]@,
        text::opt_texts(w).len() == w.len(),
        0 <= i < w.len() ==> text::opt_texts(w)[i] == text::opt_text(w[i]),
        o is None ==> text::or_empty(text::opt_text(o)).len() == 0,
        o matches Some(t) ==> text::or_empty(text::opt_text(o)) == t@,
{
}

/// The seconds that the clock told are the nanoseconds by the thousand million,
/// and the time before the epoch counts as its start.
pub proof fn law_seconds_are_whole(secs: u64, rest: u128)
    requires
        rest < 1_000_000_000,
    ensures
        web::seconds_in((secs * 1_000_000_000 + rest) as u128) == secs,
        web::nanos_in(None) == 0,
        web::nanos_in(Some(rest)) == rest,
{
    let n = secs * 1_000_000_000 + rest;
    assert(n / 1_000_000_000 == secs);
}

/// The model of a parsed URL has its scheme, its host and its segments.
pub proof fn law_url_models_have_every_part(u: UrlParts, e: String)
    ensures
        u@.scheme == u.scheme@,
        u@.host == text::opt_text(u.host),
        u@.segments is Some <==> u.segments is Some,
        u.segments matches Some(v) ==> u@.segments->0 == text::texts(v@),
        web::parsed(Ok(u)) is Ok,
        web::parsed(Ok(u))->Ok_0 == u@,
        web::parsed(Err(e)) is Err,
        web::parsed(Err(e))->Err_0 == e@,
{
}

/// The map that entries write down has exactly their keys, each with the value
/// of its entry, where no key is written twice.
pub proof fn law_entries_write_a_map(entries: Seq<(String, Option<bool>)>, k: Seq<char>, i: int)
    requires
        forall|a: int, b: int|
            0 <= a < b < entries.len() ==> #[trigger] entries[a].0@ != #[trigger] entries[b].0@,
    ensures
        textmap::distinct_keys(entries),
        textmap::entries_map(entries).contains_key(k) <==> exists|j: int|
            0 <= j < entries.len() && #[trigger] entries[j].0@ == k,
        0 <= i < entries.len() ==> textmap::entries_map(entries)[entries[i].0@] == entries[i].1,
{
    if 0 <= i < entries.len() {
        textmap::lemma_value(entries, i);
    }
}

// ---------------------------------------------------------------------------
// Servers
// ---------------------------------------------------------------------------

/// The model of a probe has every finding.
pub proof fn law_probe_models_have_every_finding(p: CachedProbe)
    ensures
        p@.ok == p.ok,
        p@.version == p.version@,
        p@.capabilities == p.capabilities@,
        p@.latest_version == text::opt_text(p.latest_version),
        p@.update_available == p.update_available,
        p@.needs_setup == p.needs_setup,
        p@.auth_failed == p.auth_failed,
        p@.checked_at == p.checked_at,
        p@.error == text::opt_text(p.error),
        instances::opt_probe(Some(p)) == Some(p@),
        instances::opt_probe(None) is None,
{
}

/// The model of a server has everything that is kept of it.
pub proof fn law_server_models_have_every_field(i: Instance)
    ensures
        i@.name == i.name@,
        i@.url == i.url@,
        i@.default == i.default,
        i@.kiosk_allowed == i.kiosk_allowed,
        i@.allow_insecure_tls == i.allow_insecure_tls,
        i@.locked == i.locked,
        i@.probe is Some <==> i.probe is Some,
        i.probe matches Some(p) ==> i@.probe == Some(p@),
{
}

/// The model of a store has each of its servers, in their order, the last used
/// one, and the hash of the document that was applied.
pub proof fn law_store_models_have_every_server(f: StoreFile, s: InstanceStore, k: int)
    ensures
        f@.instances.len() == f.instances@.len(),
        0 <= k < f.instances@.len() ==> f@.instances[k] == f.instances@[k]@,
        f@.last_used == text::opt_text(f.last_used),
        f@.provisioned_hash == text::opt_text(f.provisioned_hash),
        s@ == s.file@,
        commands::contents(Some(&s)) == Some(s@),
        commands::contents(None) is None,
        instances::models(f.instances@).len() == f.instances@.len(),
        0 <= k < f.instances@.len() ==> instances::models(f.instances@)[k] == f.instances@[k]@,
{
}

/// The model of what is shown has everything that is shown.
pub proof fn law_shown_models_have_every_field(v: InstanceView, w: ProbeView)
    ensures
        v@.name == v.name@,
        v@.url == v.url@,
        v@.default == v.default,
        v@.locked == v.locked,
        v@.allow_insecure_tls == v.allow_insecure_tls,
        v@.probe is Some <==> v.probe is Some,
        v.probe matches Some(p) ==> v@.probe == Some(p@),
        w@.ok == w.ok,
        w@.version == w.version@,
        w@.capabilities == w.capabilities@,
        w@.latest_version == text::opt_text(w.latest_version),
        w@.update_available == w.update_available,
        w@.needs_setup == w.needs_setup,
        w@.auth_failed == w.auth_failed,
        w@.checked_at == w.checked_at,
        w@.warnings == text::texts(w.warnings@),
{
}

/// The model of a status reply has all that the server reported.
pub proof fn law_status_models_have_every_field(
    s: StatusReply,
    r: Result<StatusReply, String>,
)
    ensures
        s@.version == s.version@,
        s@.capabilities == s.capabilities@,
        s@.latest_version == text::opt_text(s.latest_version),
        s@.update_available == s.update_available,
        probe::status_result(r) is Ok <==> r is Ok,
        r matches Ok(t) ==> probe::status_result(r)->Ok_0 == t@,
        r matches Err(e) ==> probe::status_result(r)->Err_0 == e@,
{
}

/// The models of the requests that commands check have what was asked for.
pub proof fn law_request_models_have_every_field(
    a: Result<AddRequest, String>,
    u: Result<Option<String>, String>,
    p: Result<(String, bool), String>,
    n: Option<Result<String, String>>,
)
    ensures
        a matches Ok(q) ==> commands::add_result(a)->Ok_0 == (q.name@, q.url@, q.default),
        commands::add_result(a) is Ok <==> a is Ok,
        a matches Err(e) ==> commands::add_result(a)->Err_0 == e@,
        u matches Ok(t) ==> commands::update_result(u)->Ok_0 == text::opt_text(t),
        commands::update_result(u) is Ok <==> u is Ok,
        u matches Err(e) ==> commands::update_result(u)->Err_0 == e@,
        p matches Ok(t) ==> commands::probe_result(p)->Ok_0 == (t.0@, t.1),
        commands::probe_result(p) is Ok <==> p is Ok,
        p matches Err(e) ==> commands::probe_result(p)->Err_0 == e@,
        commands::opt_result(n) is Some <==> n is Some,
        n matches Some(r) ==> commands::opt_result(n)->0 == text::result_text(r),
{
}

/// An update has an address with the outcome of its probe exactly where it has
/// both, and has them as they are.
pub proof fn law_address_comes_with_its_probe(
    new_url: Option<String>,
    outcome: Option<CachedProbe>,
)
    ensures
        commands::both(new_url, outcome) is Some <==> new_url is Some && outcome is Some,
        new_url is Some && outcome is Some ==> commands::both(new_url, outcome)->0 == (
            new_url->0@,
            outcome->0@,
        ),
{
}

/// The model of a provision document has its entries, in their order, with
/// name, address and mark.
pub proof fn law_document_models_have_every_entry(
    p: ProvisionedInstance,
    f: ProvisionFile,
    k: int,
)
    ensures
        p@.name == p.name@,
        p@.url == p.url@,
        p@.default == p.default,
        f@.len() == f.instances@.len(),
        0 <= k < f@.len() ==> f@[k] == f.instances@[k]@,
{
}

// ---------------------------------------------------------------------------
// Pairings
// ---------------------------------------------------------------------------

/// The model of what a poll brought says the same, and has the token.
pub proof fn law_poll_models_say_the_same(p: PollOutcome)
    ensures
        p is Pending <==> p@ is Pending,
        p is Approved <==> p@ is Approved,
        p is Expired <==> p@ is Expired,
        p is Used <==> p@ is Used,
        p is Transient <==> p@ is Transient,
        p matches PollOutcome::Approved { token_id, token_name, device_name, token } ==> p@ == (
        OutcomeModel::Approved {
            token_id,
            token_name: token_name@,
            device_name: device_name@,
            token: token@,
        }),
{
}

/// The model of a token has everything that is registered of it, and that of
/// the registry has every token, in their order.
pub proof fn law_token_models_have_every_field(t: RegisteredToken, g: TokenRegistry, k: int)
    ensures
        t@.instance_url == t.instance_url@,
        t@.token_id == t.token_id,
        t@.token_name == t.token_name@,
        t@.device_name == t.device_name@,
        t@.created_at == t.created_at,
        g@.len() == g.file.tokens@.len(),
        0 <= k < g@.len() ==> g@[k] == g.file.tokens@[k]@,
        tokens::token_models(g.file.tokens@) == g@,
        tokens::ids(g@).len() == g@.len(),
        0 <= k < g@.len() ==> tokens::ids(g@)[k] == g@[k].token_id,
{
}

/// The model of a code, or of the failure to get one, is the code with its
/// expiry, or the failure.
pub proof fn law_code_models_say_the_same(r: Result<(String, String), String>)
    ensures
        pairing_commands::code_result(r) is Ok <==> r is Ok,
        r matches Ok(t) ==> pairing_commands::code_result(r)->Ok_0 == (t.0@, t.1@),
        r matches Err(e) ==> pairing_commands::code_result(r)->Err_0 == e@,
{
}

// ---------------------------------------------------------------------------
// Transfers
// ---------------------------------------------------------------------------

/// The model of a transfer has everything that is kept of it, and that of the
/// list has every transfer, in their order.
pub proof fn law_transfer_models_have_every_field(t: Transfer, l: Transfers, k: int)
    ensures
        t@.id == t.id,
        t@.direction == t.direction,
        t@.instance == t.instance@,
        t@.session_id == t.session_id@,
        t@.remote_name == t.remote_name@,
        t@.local_path == t.local_path,
        t@.source_url == text::opt_text(t.source_url),
        t@.status == t.status,
        t@.bytes_total == t.bytes_total,
        t@.bytes_done == t.bytes_done,
        t@.error == text::opt_text(t.error),
        t@.created_at == t.created_at,
        l@.len() == l.rows@.len(),
        0 <= k < l@.len() ==> l@[k] == l.rows@[k]@,
        transfer::rows_of(l.rows@) == l@,
{
}

/// The model of a transfer that is shown has everything that is shown.
pub proof fn law_shown_transfer_models_have_every_field(v: TransferView, flags: Seq<bool>, k: int)
    ensures
        v@.id == v.id,
        v@.direction == v.direction@,
        v@.remote_name == v.remote_name@,
        v@.local_name == text::opt_text(v.local_name),
        v@.status == v.status@,
        v@.bytes_total == v.bytes_total,
        v@.bytes_done == v.bytes_done,
        v@.error == text::opt_text(v.error),
        v@.created_at == v.created_at,
        v@.can_retry == v.can_retry,
        v@.can_open_folder == v.can_open_folder,
        v@.can_save_as == v.can_save_as,
        v@.source_url == text::opt_text(v.source_url),
        0 <= k < flags.len() ==> transfer::told(flags, k) == flags[k],
        k >= flags.len() ==> !transfer::told(flags, k),
{
}

/// The model of what an upload does next says the same.
pub proof fn law_upload_models_say_the_same(a: UploadAction, r: Result<u64, String>)
    ensures
        a matches UploadAction::Read { total } ==> a@ == (ActionModel::Read { total }),
        a is Wait ==> a@ is Wait,
        a is FindToken ==> a@ is FindToken,
        a matches UploadAction::Send { bearer } ==> a@ == (ActionModel::Send { bearer: bearer@ }),
        a matches UploadAction::Finish(t) ==> a@ == ActionModel::Finish(uploads::outcome_text(t)),
        uploads::outcome_text(r) is Ok <==> r is Ok,
        r matches Ok(n) ==> uploads::outcome_text(r)->Ok_0 == n,
        r matches Err(e) ==> uploads::outcome_text(r)->Err_0 == e@,
{
}

/// The model of a request has its method, its address and its headers, in
/// their order.
pub proof fn law_drive_models_have_every_part(
    q: DriveRequest,
    r: Result<DriveRequest, String>,
    t: Option<(String, String, String)>,
    m: Result<Option<String>, String>,
    b: Option<Vec<u8>>,
    k: int,
)
    ensures
        q@.method == q.method@,
        q@.url == q.url@,
        q@.headers.len() == q.headers@.len(),
        0 <= k < q.headers@.len() ==> q@.headers[k] == (q.headers@[k].0@, q.headers@[k].1@),
        drive::request_text(r) is Ok <==> r is Ok,
        r matches Ok(p) ==> drive::request_text(r)->Ok_0 == p@,
        r matches Err(e) ==> drive::request_text(r)->Err_0 == e@,
        drive::target_text(t) is Some <==> t is Some,
        t matches Some(n) ==> drive::target_text(t) == Some((n.0@, n.1@, n.2@)),
        drive::made_text(m) is Ok <==> m is Ok,
        m matches Ok(u) ==> drive::made_text(m)->Ok_0 == text::opt_text(u),
        m matches Err(e) ==> drive::made_text(m)->Err_0 == e@,
        drive::opt_bytes(b) is Some <==> b is Some,
        b matches Some(v) ==> drive::opt_bytes(b)->0 == v@,
{
}

/// The model of a plan has the names of the files, how far it has come, the
/// names that are taken, and which files go under which names.
pub proof fn law_plan_models_have_every_name(
    run: PlanRun,
    entries: Seq<DriveEntry>,
    planned: Seq<(usize, String)>,
    k: int,
)
    ensures
        run@.raws == text::opt_texts(run.raws@),
        run@.at == run.next,
        run@.plan.taken == text::texts(run.names@),
        run@.plan.planned == plan::planned_names(run.planned@),
        plan::entry_names(entries).len() == entries.len(),
        0 <= k < entries.len() ==> plan::entry_names(entries)[k] == entries[k].name@,
        plan::planned_names(planned).len() == planned.len(),
        0 <= k < planned.len() ==> plan::planned_names(planned)[k] == (
            planned[k].0 as int,
            planned[k].1@,
        ),
{
}

/// A round of probes covers each server with its address and whether untrusted
/// certificates are accepted.
pub proof fn law_probe_targets_say_the_same(v: Seq<(String, bool)>, w: Seq<InstanceView>, k: int)
    ensures
        commands::targets(v).len() == v.len(),
        0 <= k < v.len() ==> commands::targets(v)[k] == (v[k].0@, v[k].1),
        commands::shown(w).len() == w.len(),
        0 <= k < w.len() ==> commands::shown(w)[k] == w[k]@,
{
}

} // verus!

//! What the settings page and the tray ask of the store: listing, adding,
//! changing, removing, probing and opening servers.
//!
//! A command that has to probe a server is cut in two around the probe: the
//! first part checks the request and says what to probe, the second takes the
//! outcome in.

use vstd::prelude::*;

use crate::address;
use crate::instances;
use crate::instances::{CachedProbe, Instance, InstanceModel, InstanceStore, ProbeModel, StoreModel};
use crate::probe;
use crate::probe::{InstanceView, ProbeView};
use crate::seqs;
use crate::text;
use crate::web;

verus! {

broadcast use seqs::lemma_first_range;

/// The refusal where there is no store.
pub const NO_STORE: &'static str = "instance store is not initialized";

/// The refusal to open a server where none is configured.
pub const NO_INSTANCES: &'static str = "No instances configured";

/// The refusal of a blank name.
pub const NAME_REQUIRED: &'static str = "Name is required";

/// The refusal where there is no store.
pub fn unavailable_store() -> (r: String)
    ensures
        r@ == NO_STORE@,
{
    NO_STORE.to_string()
}

/// The refusal to open a server where none is configured.
pub fn no_instances() -> (r: String)
    ensures
        r@ == NO_INSTANCES@,
{
    NO_INSTANCES.to_string()
}

/// The failure to find the window in which servers are shown.
pub fn main_window_missing() -> (r: String)
    ensures
        r@ == "main window not found"@,
{
    "main window not found".to_string()
}

/// The refusal of a URL that no server has.
pub open spec fn unknown(url: Seq<char>) -> Seq<char> {
    "No instance with URL "@ + url
}

/// The refusal of a URL that another server has.
pub open spec fn taken(url: Seq<char>) -> Seq<char> {
    "An instance with URL "@ + url + " already exists"@
}

/// The contents of a store that may not be there.
pub open spec fn contents(store: Option<&InstanceStore>) -> Option<StoreModel> {
    match store {
        Some(s) => Some(s@),
        None => None,
    }
}

/// The server with the URL.
pub open spec fn at(m: StoreModel, url: Seq<char>) -> InstanceModel {
    m.instances[instances::position(m.instances, url)]
}

/// The store with another server at the URL.
pub open spec fn with_at(m: StoreModel, url: Seq<char>, i: InstanceModel) -> StoreModel {
    StoreModel {
        instances: m.instances.update(instances::position(m.instances, url), i),
        ..m
    }
}

// ---------------------------------------------------------------------------
// Listing
// ---------------------------------------------------------------------------

/// How a list of servers is shown.
pub open spec fn shown(v: Seq<InstanceView>) -> Seq<probe::InstanceShown> {
    v.map_values(|i: InstanceView| i@)
}

/// Shows every configured server.
pub fn cmd_instances_list(store: Option<&InstanceStore>) -> (r: Result<Vec<InstanceView>, String>)
    ensures
        match r {
            Ok(v) => store is Some && shown(v@) == store->0@.instances.map_values(
                |i: InstanceModel| probe::instance_shown(i),
            ),
            Err(e) => store is None && e@ == NO_STORE@,
        },
{
    let s = match store {
        Some(s) => s,
        None => {
            return Err(unavailable_store());
        },
    };
    let mut out: Vec<InstanceView> = Vec::new();
    let mut i: usize = 0;
    while i < s.file.instances.len()
        invariant
            i <= s.file.instances@.len(),
            out@.len() == i,
            forall|j: int|
                0 <= j < i ==> (#[trigger] out@[j])@ == probe::instance_shown(
                    s.file.instances@[j]@,
                ),
        decreases s.file.instances@.len() - i,
    {
        out.push(probe::instance_view(&s.file.instances[i]));
        i = i + 1;
    }
    proof {
        assert(shown(out@) =~= s@.instances.map_values(
            |i: InstanceModel| probe::instance_shown(i),
        ));
    }
    Ok(out)
}

// ---------------------------------------------------------------------------
// Adding
// ---------------------------------------------------------------------------

/// A server that may be added: its name and URL, and whether it becomes the
/// default because it is the first.
#[derive(Debug)]
pub struct AddRequest {
    pub name: String,
    pub url: String,
    pub default: bool,
}

/// Whether a server may be added, with the name without white space around it,
/// or why not.
pub open spec fn may_add(
    m: Option<StoreModel>,
    name: Seq<char>,
    url: Result<Seq<char>, Seq<char>>,
) -> Result<(Seq<char>, Seq<char>, bool), Seq<char>> {
    match url {
        Err(e) => Err(e),
        Ok(u) => if text::trim(name).len() == 0 {
            Err(NAME_REQUIRED@)
        } else {
            match m {
                None => Err(NO_STORE@),
                Some(m) => if instances::has_url(m.instances, u) {
                    Err(taken(u))
                } else {
                    Ok((text::trim(name), u, m.instances.len() == 0))
                },
            }
        },
    }
}

/// The model of a request to add a server.
pub open spec fn add_result(r: Result<AddRequest, String>) -> Result<
    (Seq<char>, Seq<char>, bool),
    Seq<char>,
> {
    match r {
        Ok(a) => Ok((a.name@, a.url@, a.default)),
        Err(e) => Err(e@),
    }
}

/// Checks a server that is to be added, from its address validated already.
pub fn add_request(store: Option<&InstanceStore>, name: &str, url: Result<String, String>) -> (r:
    Result<AddRequest, String>)
    ensures
        add_result(r) == may_add(contents(store), name@, text::result_text(url)),
{
    let url = match url {
        Ok(u) => u,
        Err(e) => {
            return Err(e);
        },
    };
    let name = text::trim_of(name);
    if name.is_empty() {
        return Err(NAME_REQUIRED.to_string());
    }
    match store {
        None => Err(unavailable_store()),
        Some(s) => {
            if s.index_of(url.as_str()).is_some() {
                return Err(text::join3("An instance with URL ", url.as_str(), " already exists"));
            }
            let default: bool = s.file.instances.len() == 0;
            Ok(AddRequest { name: name.to_string(), url, default })
        },
    }
}

/// Checks a server that is to be added. Nothing is probed for a request that
/// is refused.
pub fn cmd_instances_add(store: Option<&InstanceStore>, name: &str, url: &str) -> (r: Result<
    AddRequest,
    String,
>)
    ensures
        add_result(r) == may_add(contents(store), name@, address::validated(url@)),
{
    add_request(store, name, address::validate_instance_url(url))
}

/// The server that a request adds.
pub open spec fn added(
    name: Seq<char>,
    url: Seq<char>,
    default: bool,
    allow_insecure_tls: Option<bool>,
    outcome: ProbeModel,
) -> InstanceModel {
    InstanceModel {
        name,
        url,
        default,
        kiosk_allowed: None,
        allow_insecure_tls,
        locked: false,
        probe: Some(outcome),
    }
}

/// Adds a server with the outcome of its probe, and shows the server that the
/// store has at the URL.
pub fn add_instance(
    store: &mut InstanceStore,
    request: AddRequest,
    allow_insecure_tls: Option<bool>,
    outcome: CachedProbe,
) -> (r: InstanceView)
    ensures
        final(store).path == old(store).path,
        final(store)@ == (StoreModel {
            instances: old(store)@.instances.push(
                added(
                    request.name@,
                    request.url@,
                    request.default,
                    allow_insecure_tls,
                    outcome@,
                ),
            ),
            ..old(store)@
        }),
        r@ == probe::instance_shown(at(final(store)@, request.url@)),
{
    let ghost before = store@.instances;
    let url = request.url.clone();
    store.file.instances.push(
        Instance {
            name: request.name,
            url: request.url,
            default: request.default,
            kiosk_allowed: None,
            allow_insecure_tls,
            locked: false,
            probe: Some(outcome),
        },
    );
    proof {
        assert(store@.instances =~= before.push(
            added(request.name@, request.url@, request.default, allow_insecure_tls, outcome@),
        ));
        seqs::lemma_first_at_most(
            store@.instances,
            instances::by_url(url@),
            before.len() as int,
        );
    }
    match store.index_of(url.as_str()) {
        Some(k) => probe::instance_view(&store.file.instances[k]),
        None => {
            let last: usize = store.file.instances.len() - 1;
            probe::instance_view(&store.file.instances[last])
        },
    }
}

// ---------------------------------------------------------------------------
// Changing
// ---------------------------------------------------------------------------

/// Whether the server at `url` may get the name and the address, and the
/// address to probe, or why not.
pub open spec fn may_update(
    m: Option<StoreModel>,
    url: Seq<char>,
    name: Option<Seq<char>>,
    new_url: Option<Result<Seq<char>, Seq<char>>>,
) -> Result<Option<Seq<char>>, Seq<char>> {
    match m {
        None => Err(NO_STORE@),
        Some(m) => if !instances::has_url(m.instances, url) {
            Err(unknown(url))
        } else if at(m, url).locked {
            Err(instances::LOCKED_MESSAGE@)
        } else if name matches Some(n) && text::trim(n).len() == 0 {
            Err(NAME_REQUIRED@)
        } else {
            match new_url {
                None => Ok(None),
                Some(Err(e)) => Err(e),
                Some(Ok(u)) => if u != url && instances::has_url(m.instances, u) {
                    Err(taken(u))
                } else {
                    Ok(Some(u))
                },
            }
        },
    }
}

/// The model of an address that may be given.
pub open spec fn opt_result(r: Option<Result<String, String>>) -> Option<
    Result<Seq<char>, Seq<char>>,
> {
    match r {
        Some(r) => Some(text::result_text(r)),
        None => None,
    }
}

/// The model of a checked update.
pub open spec fn update_result(r: Result<Option<String>, String>) -> Result<
    Option<Seq<char>>,
    Seq<char>,
> {
    match r {
        Ok(u) => Ok(text::opt_text(u)),
        Err(e) => Err(e@),
    }
}

/// Checks an update, from its address validated already, and says which
/// address to probe.
pub fn update_request(
    store: Option<&InstanceStore>,
    url: &str,
    name: Option<&str>,
    new_url: Option<Result<String, String>>,
) -> (r: Result<Option<String>, String>)
    ensures
        update_result(r) == may_update(
            contents(store),
            url@,
            text::opt_str(name),
            opt_result(new_url),
        ),
{
    let s = match store {
        Some(s) => s,
        None => {
            return Err(unavailable_store());
        },
    };
    let k: usize = match s.index_of(url) {
        Some(k) => k,
        None => {
            return Err(text::join2("No instance with URL ", url));
        },
    };
    if s.file.instances[k].locked {
        return Err(instances::LOCKED_MESSAGE.to_string());
    }
    match name {
        Some(n) => {
            if text::trim_of(n).is_empty() {
                return Err(NAME_REQUIRED.to_string());
            }
        },
        None => {},
    }
    match new_url {
        None => Ok(None),
        Some(Err(e)) => Err(e),
        Some(Ok(u)) => {
            if !text::same(u.as_str(), url) && s.index_of(u.as_str()).is_some() {
                return Err(text::join3("An instance with URL ", u.as_str(), " already exists"));
            }
            Ok(Some(u))
        },
    }
}

/// The addresses that an update validates.
pub open spec fn validated_opt(new_url: Option<Seq<char>>) -> Option<
    Result<Seq<char>, Seq<char>>,
> {
    match new_url {
        Some(u) => Some(address::validated(u)),
        None => None,
    }
}

/// Checks an update of the server at `url`, and says which address to probe.
pub fn cmd_instances_update(
    store: Option<&InstanceStore>,
    url: &str,
    name: Option<&str>,
    new_url: Option<&str>,
) -> (r: Result<Option<String>, String>)
    ensures
        update_result(r) == may_update(
            contents(store),
            url@,
            text::opt_str(name),
            validated_opt(text::opt_str(new_url)),
        ),
{
    let checked: Option<Result<String, String>> = match new_url {
        Some(u) => Some(address::validate_instance_url(u)),
        None => None,
    };
    update_request(store, url, name, checked)
}

/// The server after an update: the name without white space around it, the
/// override, and the address with the outcome of its probe where both are
/// there.
pub open spec fn updated(
    i: InstanceModel,
    name: Option<Seq<char>>,
    allow_insecure_tls: Option<bool>,
    probed: Option<(Seq<char>, ProbeModel)>,
) -> InstanceModel {
    let named = InstanceModel {
        name: match name {
            Some(n) => text::trim(n),
            None => i.name,
        },
        allow_insecure_tls,
        ..i
    };
    match probed {
        Some((u, o)) => InstanceModel { url: u, probe: Some(o), ..named },
        None => named,
    }
}

/// The store after an update of the server at `url`: the last used server
/// stays the last used one under its new address.
pub open spec fn store_updated(
    m: StoreModel,
    url: Seq<char>,
    name: Option<Seq<char>>,
    allow_insecure_tls: Option<bool>,
    probed: Option<(Seq<char>, ProbeModel)>,
) -> StoreModel {
    let after = with_at(m, url, updated(at(m, url), name, allow_insecure_tls, probed));
    match probed {
        Some((u, _)) => if m.last_used == Some(url) {
            StoreModel { last_used: Some(u), ..after }
        } else {
            after
        },
        None => after,
    }
}

/// An address with the outcome of its probe, where both are there.
pub open spec fn both(new_url: Option<String>, outcome: Option<CachedProbe>) -> Option<
    (Seq<char>, ProbeModel),
> {
    match (new_url, outcome) {
        (Some(u), Some(o)) => Some((u@, o@)),
        _ => None,
    }
}

/// Applies an update that was checked and probed. The server may have gone in
/// the meantime.
pub fn apply_update(
    store: &mut InstanceStore,
    url: &str,
    name: Option<&str>,
    new_url: Option<String>,
    allow_insecure_tls: Option<bool>,
    outcome: Option<CachedProbe>,
) -> (r: Result<InstanceView, String>)
    ensures
        final(store).path == old(store).path,
        match r {
            Ok(v) => {
                &&& instances::has_url(old(store)@.instances, url@)
                &&& final(store)@ == store_updated(
                    old(store)@,
                    url@,
                    text::opt_str(name),
                    allow_insecure_tls,
                    both(new_url, outcome),
                )
                &&& v@ == probe::instance_shown(
                    updated(
                        at(old(store)@, url@),
                        text::opt_str(name),
                        allow_insecure_tls,
                        both(new_url, outcome),
                    ),
                )
            },
            Err(e) => {
                &&& !instances::has_url(old(store)@.instances, url@)
                &&& e@ == unknown(url@)
                &&& *final(store) == *old(store)
            },
        },
{
    let ghost before = store@;
    let k: usize = match store.index_of(url) {
        Some(k) => k,
        None => {
            return Err(text::join2("No instance with URL ", url));
        },
    };
    match name {
        Some(n) => {
            store.file.instances[k].name = text::trim_of(n).to_string();
        },
        None => {},
    }
    store.file.instances[k].allow_insecure_tls = allow_insecure_tls;
    match (new_url, outcome) {
        (Some(u), Some(o)) => {
            store.file.instances[k].url = u.clone();
            store.file.instances[k].probe = Some(o);
            if text::is_text(&store.file.last_used, url) {
                store.file.last_used = Some(u);
            }
        },
        _ => {},
    }
    proof {
        let after = store_updated(
            before,
            url@,
            text::opt_str(name),
            allow_insecure_tls,
            both(new_url, outcome),
        );
        assert(store@.instances =~= after.instances);
    }
    Ok(probe::instance_view(&store.file.instances[k]))
}

// ---------------------------------------------------------------------------
// Removing, and choosing the default
// ---------------------------------------------------------------------------

/// Removes a server.
pub fn cmd_instances_remove(store: &mut InstanceStore, url: &str) -> (r: Result<(), String>)
    ensures
        final(store).path == old(store).path,
        match r {
            Ok(()) => {
                &&& instances::has_url(old(store)@.instances, url@)
                &&& !at(old(store)@, url@).locked
                &&& final(store)@ == instances::without(
                    old(store)@,
                    instances::position(old(store)@.instances, url@),
                    url@,
                )
            },
            Err(e) => {
                &&& *final(store) == *old(store)
                &&& if instances::has_url(old(store)@.instances, url@) {
                    at(old(store)@, url@).locked && e@ == instances::LOCKED_MESSAGE@
                } else {
                    e@ == "no instance with URL "@ + url@
                }
            },
        },
{
    match store.remove(url) {
        Ok(()) => Ok(()),
        Err(e) => Err(e.message()),
    }
}

/// The server with or without the default mark.
pub open spec fn marked(i: InstanceModel, default: bool) -> InstanceModel {
    InstanceModel { default, ..i }
}

/// The store with the server at position `k` as the only default.
pub open spec fn defaulted(m: StoreModel, k: int) -> StoreModel {
    StoreModel {
        instances: Seq::new(m.instances.len(), |j: int| marked(m.instances[j], j == k)),
        last_used: Some(m.instances[k].url),
        ..m
    }
}

/// Makes a server the default one, and the last used one.
pub fn cmd_instances_set_default(store: &mut InstanceStore, url: &str) -> (r: Result<(), String>)
    ensures
        final(store).path == old(store).path,
        match r {
            Ok(()) => {
                &&& instances::has_url(old(store)@.instances, url@)
                &&& !at(old(store)@, url@).locked
                &&& final(store)@ == defaulted(
                    old(store)@,
                    instances::position(old(store)@.instances, url@),
                )
            },
            Err(e) => {
                &&& *final(store) == *old(store)
                &&& if instances::has_url(old(store)@.instances, url@) {
                    at(old(store)@, url@).locked && e@ == instances::LOCKED_MESSAGE@
                } else {
                    e@ == unknown(url@)
                }
            },
        },
{
    let ghost before = store@;
    let k: usize = match store.index_of(url) {
        Some(k) => k,
        None => {
            return Err(text::join2("No instance with URL ", url));
        },
    };
    if store.file.instances[k].locked {
        return Err(instances::LOCKED_MESSAGE.to_string());
    }
    let ghost after = defaulted(before, k as int);
    let n: usize = store.file.instances.len();
    let mut i: usize = 0;
    while i < n
        invariant
            k < n,
            n == store.file.instances@.len(),
            n == before.instances.len(),
            i <= n,
            after == defaulted(before, k as int),
            store.path == old(store).path,
            store@.last_used == before.last_used,
            store@.provisioned_hash == before.provisioned_hash,
            forall|j: int| 0 <= j < i ==> #[trigger] store@.instances[j] == after.instances[j],
            forall|j: int| i <= j < n ==> #[trigger] store@.instances[j] == before.instances[j],
        decreases n - i,
    {
        let ghost mid = store@.instances;
        proof {
            assert(mid[i as int] == before.instances[i as int]);
        }
        store.file.instances[i].default = i == k;
        proof {
            assert(store@.instances =~= mid.update(i as int, after.instances[i as int]));
        }
        i = i + 1;
    }
    proof {
        assert(store@.instances =~= after.instances);
        seqs::lemma_first_bounds(before.instances, instances::by_url(url@));
    }
    store.file.last_used = Some(url.to_string());
    Ok(())
}

// ---------------------------------------------------------------------------
// Probing
// ---------------------------------------------------------------------------

/// Whether the server at the address may be probed, and whether untrusted
/// certificates are accepted, or why not.
pub open spec fn may_probe(
    m: Option<StoreModel>,
    url: Result<Seq<char>, Seq<char>>,
    global: bool,
) -> Result<(Seq<char>, bool), Seq<char>> {
    match url {
        Err(e) => Err(e),
        Ok(u) => match m {
            None => Err(NO_STORE@),
            Some(m) => if !instances::has_url(m.instances, u) {
                Err(unknown(u))
            } else {
                Ok((u, insecure(at(m, u), global)))
            },
        },
    }
}

/// Whether untrusted certificates are accepted of the server.
pub open spec fn insecure(i: InstanceModel, global: bool) -> bool {
    match i.allow_insecure_tls {
        Some(b) => b,
        None => global,
    }
}

/// The model of a checked probe request.
pub open spec fn probe_result(r: Result<(String, bool), String>) -> Result<
    (Seq<char>, bool),
    Seq<char>,
> {
    match r {
        Ok(t) => Ok((t.0@, t.1)),
        Err(e) => Err(e@),
    }
}

/// Checks a probe request, from its address validated already.
pub fn probe_request(store: Option<&InstanceStore>, url: Result<String, String>, global: bool) -> (r:
    Result<(String, bool), String>)
    ensures
        probe_result(r) == may_probe(contents(store), text::result_text(url), global),
{
    let url = match url {
        Ok(u) => u,
        Err(e) => {
            return Err(e);
        },
    };
    match store {
        None => Err(unavailable_store()),
        Some(s) => {
            let allow: bool = match s.find(url.as_str()) {
                Some(i) => i.allow_insecure_tls_effective(global),
                None => {
                    return Err(text::join2("No instance with URL ", url.as_str()));
                },
            };
            Ok((url, allow))
        },
    }
}

/// Checks a request to probe a server, and says which address to probe and
/// whether untrusted certificates are accepted.
pub fn cmd_instances_probe(store: Option<&InstanceStore>, url: &str, global: bool) -> (r: Result<
    (String, bool),
    String,
>)
    ensures
        probe_result(r) == may_probe(contents(store), address::validated(url@), global),
{
    probe_request(store, address::validate_instance_url(url), global)
}

/// The store with the outcome of a probe of the server at `url`, taken in at
/// the given time.
pub open spec fn with_probe(
    m: StoreModel,
    url: Seq<char>,
    outcome: ProbeModel,
    now: u64,
) -> StoreModel {
    with_at(
        m,
        url,
        InstanceModel {
            probe: Some(probe::reprobed(at(m, url).probe, outcome, now)),
            ..at(m, url)
        },
    )
}

/// Takes the outcome of a probe in, at the given time. The server may have
/// gone in the meantime.
pub fn store_probe_at(store: &mut InstanceStore, url: &str, outcome: CachedProbe, now: u64) -> (r:
    Result<ProbeView, String>)
    ensures
        final(store).path == old(store).path,
        match r {
            Ok(v) => {
                &&& instances::has_url(old(store)@.instances, url@)
                &&& final(store)@ == with_probe(old(store)@, url@, outcome@, now)
                &&& v@ == probe::probe_shown(
                    url@,
                    probe::reprobed(at(old(store)@, url@).probe, outcome@, now),
                )
            },
            Err(e) => {
                &&& !instances::has_url(old(store)@.instances, url@)
                &&& e@ == unknown(url@)
                &&& *final(store) == *old(store)
            },
        },
{
    let ghost before = store@;
    let k: usize = match store.index_of(url) {
        Some(k) => k,
        None => {
            return Err(text::join2("No instance with URL ", url));
        },
    };
    let prior = instances::clone_probe(&store.file.instances[k].probe);
    let fresh = probe::apply_probe_at(prior, outcome, now);
    let view = probe::probe_view(url, &fresh);
    store.file.instances[k].probe = Some(fresh);
    proof {
        assert(store@.instances =~= with_probe(before, url@, outcome@, now).instances);
    }
    Ok(view)
}

/// Takes the outcome of a probe in.
pub fn store_probe(store: &mut InstanceStore, url: &str, outcome: CachedProbe) -> (r: Result<
    ProbeView,
    String,
>)
    ensures
        final(store).path == old(store).path,
        match r {
            Ok(v) => {
                &&& instances::has_url(old(store)@.instances, url@)
                &&& exists|now: u64|
                    {
                        &&& #[trigger] web::clock_told_secs(now)
                        &&& final(store)@ == with_probe(old(store)@, url@, outcome@, now)
                        &&& v@ == probe::probe_shown(
                            url@,
                            probe::reprobed(at(old(store)@, url@).probe, outcome@, now),
                        )
                    }
            },
            Err(e) => {
                &&& !instances::has_url(old(store)@.instances, url@)
                &&& e@ == unknown(url@)
                &&& *final(store) == *old(store)
            },
        },
{
    let now: u64 = web::now_secs();
    store_probe_at(store, url, outcome, now)
}

/// What a round of probes covers: each address, and whether untrusted
/// certificates are accepted.
pub open spec fn targets(v: Seq<(String, bool)>) -> Seq<(Seq<char>, bool)> {
    v.map_values(|t: (String, bool)| (t.0@, t.1))
}

/// Lists what a round of probes of every server covers.
pub fn probe_targets(store: &InstanceStore, global: bool) -> (r: Vec<(String, bool)>)
    ensures
        targets(r@) == store@.instances.map_values(
            |i: InstanceModel| (i.url, insecure(i, global)),
        ),
{
    let mut out: Vec<(String, bool)> = Vec::new();
    let mut i: usize = 0;
    while i < store.file.instances.len()
        invariant
            i <= store.file.instances@.len(),
            out@.len() == i,
            forall|j: int|
                0 <= j < i ==> (#[trigger] out@[j]).0@ == store.file.instances@[j]@.url && out@[j].1
                    == insecure(store.file.instances@[j]@, global),
        decreases store.file.instances@.len() - i,
    {
        let inst = &store.file.instances[i];
        out.push((inst.url.clone(), inst.allow_insecure_tls_effective(global)));
        i = i + 1;
    }
    proof {
        assert(targets(out@) =~= store@.instances.map_values(
            |i: InstanceModel| (i.url, insecure(i, global)),
        ));
    }
    out
}

// ---------------------------------------------------------------------------
// Opening
// ---------------------------------------------------------------------------

/// Notes that the server at an address, validated already, is opened, and says
/// which address to show.
pub fn open_address(store: &mut InstanceStore, url: Result<String, String>) -> (r: Result<
    String,
    String,
>)
    ensures
        final(store).path == old(store).path,
        text::result_text(r) == (match text::result_text(url) {
            Err(e) => Err(e),
            Ok(u) => if instances::has_url(old(store)@.instances, u) {
                Ok(u)
            } else {
                Err(unknown(u))
            },
        }),
        match r {
            Ok(u) => final(store)@ == (StoreModel { last_used: Some(u@), ..old(store)@ }),
            Err(_) => *final(store) == *old(store),
        },
{
    let url = match url {
        Ok(u) => u,
        Err(e) => {
            return Err(e);
        },
    };
    if store.index_of(url.as_str()).is_none() {
        return Err(text::join2("No instance with URL ", url.as_str()));
    }
    store.record_used(url.as_str());
    Ok(url)
}

/// Notes that a server is opened, and says which address to show.
pub fn cmd_instances_open(store: &mut InstanceStore, url: &str) -> (r: Result<String, String>)
    ensures
        final(store).path == old(store).path,
        text::result_text(r) == (match address::validated(url@) {
            Err(e) => Err(e),
            Ok(u) => if instances::has_url(old(store)@.instances, u) {
                Ok(u)
            } else {
                Err(unknown(u))
            },
        }),
        match r {
            Ok(u) => final(store)@ == (StoreModel { last_used: Some(u@), ..old(store)@ }),
            Err(_) => *final(store) == *old(store),
        },
{
    open_address(store, address::validate_instance_url(url))
}

/// The address that is opened at startup.
pub open spec fn startup_url(m: StoreModel) -> Option<Seq<char>> {
    match instances::startup_target(m) {
        Some(k) => Some(m.instances[k].url),
        None => None,
    }
}

/// The address to open at startup.
pub fn auto_open(store: &InstanceStore) -> (r: Option<String>)
    ensures
        text::opt_text(r) == startup_url(store@),
{
    match store.default_or_last() {
        Some(i) => Some(i.url.clone()),
        None => None,
    }
}

/// The address of the default server, or of the last used one.
pub fn cmd_instances_open_default(store: Option<&InstanceStore>) -> (r: Result<String, String>)
    ensures
        match r {
            Ok(u) => store is Some && startup_url(store->0@) == Some(u@),
            Err(e) => match store {
                None => e@ == NO_STORE@,
                Some(s) => startup_url(s@) is None && e@ == NO_INSTANCES@,
            },
        },
{
    match store {
        None => Err(unavailable_store()),
        Some(s) => match auto_open(s) {
            Some(u) => Ok(u),
            None => Err(no_instances()),
        },
    }
}

/// The address of a server and that of its setup page.
pub fn cmd_instances_open_setup(url: &str) -> (r: Result<(String, String), String>)
    ensures
        match r {
            Ok(t) => address::validated(url@) == Ok::<Seq<char>, Seq<char>>(t.0@) && t.1@ == t.0@
                + "/setup"@,
            Err(e) => address::validated(url@) == Err::<Seq<char>, Seq<char>>(e@),
        },
{
    match address::validate_instance_url(url) {
        Ok(u) => {
            let page = text::join2(u.as_str(), "/setup");
            Ok((u, page))
        },
        Err(e) => Err(e),
    }
}

} // verus!

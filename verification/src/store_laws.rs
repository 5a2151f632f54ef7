//! What holds of the store across commands, of probes, and of addresses.

use vstd::prelude::*;
use vstd::utf8::*;

use crate::address;
use crate::commands;
use crate::instances;
use crate::instances::{InstanceModel, ProbeModel, StoreError, StoreModel};
use crate::merge_laws;
use crate::probe;
use crate::probe::StatusModel;
use crate::seqs;
use crate::text;
use crate::text_laws;
use crate::web;

verus! {

broadcast use seqs::lemma_first_range;

// ---------------------------------------------------------------------------
// Commands on the store
// ---------------------------------------------------------------------------

/// The server that was made the default is the one that is opened at startup,
/// and no other is marked as the default.
pub proof fn law_default_is_opened(m: StoreModel, k: int)
    requires
        0 <= k < m.instances.len(),
    ensures
        instances::startup_target(commands::defaulted(m, k)) == Some(k),
        commands::defaulted(m, k).last_used == Some(m.instances[k].url),
        forall|j: int|
            0 <= j < m.instances.len() ==> (#[trigger] commands::defaulted(m, k).instances[j]).default
                == (j == k),
{
    let s = commands::defaulted(m, k).instances;
    seqs::lemma_first(s, instances::by_default(), k);
}

/// Choosing a default keeps the URLs distinct.
pub proof fn law_set_default_keeps_urls_distinct(m: StoreModel, k: int)
    requires
        merge_laws::distinct_urls(m.instances),
    ensures
        merge_laws::distinct_urls(commands::defaulted(m, k).instances),
{
    let s = commands::defaulted(m, k).instances;
    assert forall|i: int, j: int| 0 <= i < j < s.len() implies (#[trigger] s[i]).url != (
    #[trigger] s[j]).url by {
        assert(m.instances[i].url != m.instances[j].url);
    }
}

/// A server that may be added has a URL of its own.
pub proof fn law_add_keeps_urls_distinct(
    m: StoreModel,
    name: Seq<char>,
    url: Result<Seq<char>, Seq<char>>,
    i: InstanceModel,
)
    requires
        merge_laws::distinct_urls(m.instances),
        commands::may_add(Some(m), name, url) matches Ok(a) && i.url == a.1,
    ensures
        merge_laws::distinct_urls(m.instances.push(i)),
{
    let s = m.instances.push(i);
    seqs::lemma_first_bounds(m.instances, instances::by_url(i.url));
    assert forall|a: int, b: int| 0 <= a < b < s.len() implies (#[trigger] s[a]).url != (
    #[trigger] s[b]).url by {
        assert(!instances::by_url(i.url)(m.instances[a]));
        if b < m.instances.len() {
            assert(m.instances[a].url != m.instances[b].url);
        }
    }
}

/// A server that may be added is found at its URL, as it was added.
pub proof fn law_added_is_found(
    m: StoreModel,
    name: Seq<char>,
    url: Result<Seq<char>, Seq<char>>,
    i: InstanceModel,
)
    requires
        commands::may_add(Some(m), name, url) matches Ok(a) && i.url == a.1,
    ensures
        ({
            let after = StoreModel { instances: m.instances.push(i), ..m };
            instances::has_url(after.instances, i.url) && commands::at(after, i.url) == i
        }),
{
    let s = m.instances.push(i);
    seqs::lemma_first_bounds(m.instances, instances::by_url(i.url));
    assert forall|j: int| 0 <= j < m.instances.len() implies !instances::by_url(i.url)(
        #[trigger] s[j],
    ) by {
        assert(s[j] == m.instances[j]);
    }
    seqs::lemma_first(s, instances::by_url(i.url), m.instances.len() as int);
}

/// The first server that is added is the one that is opened at startup.
pub proof fn law_first_server_is_opened(
    m: StoreModel,
    name: Seq<char>,
    url: Result<Seq<char>, Seq<char>>,
    allow_insecure_tls: Option<bool>,
    outcome: ProbeModel,
)
    requires
        m.instances.len() == 0,
        commands::may_add(Some(m), name, url) is Ok,
    ensures
        ({
            let a = commands::may_add(Some(m), name, url)->Ok_0;
            commands::startup_url(
                StoreModel {
                    instances: m.instances.push(
                        commands::added(a.0, a.1, a.2, allow_insecure_tls, outcome),
                    ),
                    ..m
                },
            ) == Some(a.1)
        }),
{
    let a = commands::may_add(Some(m), name, url)->Ok_0;
    let s = m.instances.push(commands::added(a.0, a.1, a.2, allow_insecure_tls, outcome));
    seqs::lemma_first(s, instances::by_default(), 0);
}

/// An update that was checked keeps the URLs distinct.
pub proof fn law_update_keeps_urls_distinct(
    m: StoreModel,
    url: Seq<char>,
    name: Option<Seq<char>>,
    new_url: Option<Result<Seq<char>, Seq<char>>>,
    allow_insecure_tls: Option<bool>,
    outcome: ProbeModel,
)
    requires
        merge_laws::distinct_urls(m.instances),
        commands::may_update(Some(m), url, name, new_url) is Ok,
    ensures
        ({
            let probed = match commands::may_update(Some(m), url, name, new_url)->Ok_0 {
                Some(u) => Some((u, outcome)),
                None => None,
            };
            merge_laws::distinct_urls(
                commands::store_updated(m, url, name, allow_insecure_tls, probed).instances,
            )
        }),
{
    let checked = commands::may_update(Some(m), url, name, new_url)->Ok_0;
    let probed = match checked {
        Some(u) => Some((u, outcome)),
        None => None,
    };
    let k = instances::position(m.instances, url);
    seqs::lemma_first_bounds(m.instances, instances::by_url(url));
    let s = commands::store_updated(m, url, name, allow_insecure_tls, probed).instances;
    if checked is Some {
        seqs::lemma_first_bounds(m.instances, instances::by_url(checked->0));
    }
    assert forall|a: int, b: int| 0 <= a < b < s.len() implies (#[trigger] s[a]).url != (
    #[trigger] s[b]).url by {
        assert(m.instances[a].url != m.instances[b].url);
        if checked is Some && checked->0 != url {
            let u = checked->0;
            if a == k {
                assert(!instances::by_url(u)(m.instances[b]));
            }
            if b == k {
                assert(!instances::by_url(u)(m.instances[a]));
            }
        }
    }
}

/// The last used server is still the last used one after its address changed.
pub proof fn law_last_used_follows_an_update(
    m: StoreModel,
    url: Seq<char>,
    name: Option<Seq<char>>,
    allow_insecure_tls: Option<bool>,
    new_url: Seq<char>,
    outcome: ProbeModel,
)
    requires
        instances::has_url(m.instances, url),
        m.last_used == Some(url),
    ensures
        ({
            let after = commands::store_updated(
                m,
                url,
                name,
                allow_insecure_tls,
                Some((new_url, outcome)),
            );
            after.last_used == Some(new_url) && instances::has_url(after.instances, new_url)
        }),
{
    let after = commands::store_updated(
        m,
        url,
        name,
        allow_insecure_tls,
        Some((new_url, outcome)),
    );
    let k = instances::position(m.instances, url);
    seqs::lemma_first_at_most(after.instances, instances::by_url(new_url), k);
}

/// A removed server is gone, nothing points at it any more, and the URLs stay
/// distinct.
pub proof fn law_removed_is_gone(m: StoreModel, url: Seq<char>)
    requires
        merge_laws::distinct_urls(m.instances),
        instances::has_url(m.instances, url),
    ensures
        ({
            let after = instances::without(m, instances::position(m.instances, url), url);
            &&& !instances::has_url(after.instances, url)
            &&& after.last_used != Some(url)
            &&& merge_laws::distinct_urls(after.instances)
        }),
{
    let k = instances::position(m.instances, url);
    let s = instances::without(m, k, url).instances;
    seqs::lemma_first_bounds(m.instances, instances::by_url(url));
    assert forall|j: int| 0 <= j < s.len() implies !instances::by_url(url)(#[trigger] s[j]) by {
        if j < k {
            assert(s[j] == m.instances[j]);
        } else {
            assert(s[j] == m.instances[j + 1]);
            assert(m.instances[k].url != m.instances[j + 1].url);
        }
    }
    seqs::lemma_first(s, instances::by_url(url), s.len() as int);
    assert forall|a: int, b: int| 0 <= a < b < s.len() implies (#[trigger] s[a]).url != (
    #[trigger] s[b]).url by {
        let x = if a < k {
            a
        } else {
            a + 1
        };
        let y = if b < k {
            b
        } else {
            b + 1
        };
        assert(s[a] == m.instances[x] && s[b] == m.instances[y]);
        assert(m.instances[x].url != m.instances[y].url);
    }
}

/// A server is found at a URL exactly where one has that URL, and it is the
/// first that has.
pub proof fn law_server_is_found_by_its_url(s: Seq<InstanceModel>, url: Seq<char>, k: int)
    requires
        0 <= k < s.len(),
        s[k].url == url,
    ensures
        instances::has_url(s, url),
        0 <= instances::position(s, url) <= k,
        s[instances::position(s, url)].url == url,
        merge_laws::lookup(s, url) == Some(s[instances::position(s, url)]),
        merge_laws::distinct_urls(s) ==> instances::position(s, url) == k,
{
    seqs::lemma_first_at_most(s, instances::by_url(url), k);
    seqs::lemma_first_bounds(s, instances::by_url(url));
}

/// No server is found at a URL that none has.
pub proof fn law_unknown_url_finds_nothing(s: Seq<InstanceModel>, url: Seq<char>)
    requires
        forall|k: int| 0 <= k < s.len() ==> (#[trigger] s[k]).url != url,
    ensures
        !instances::has_url(s, url),
        merge_laws::lookup(s, url) is None,
{
    seqs::lemma_first(s, instances::by_url(url), s.len() as int);
}

/// Removing a server leaves every other one: the list is one shorter, the
/// others stand in it as they were and in their order, and what is found at any
/// other URL is what was found there before. The last used server is forgotten
/// only where it is the one that was removed.
pub proof fn law_other_servers_stay(m: StoreModel, url: Seq<char>, other: Seq<char>)
    requires
        instances::has_url(m.instances, url),
        other != url,
    ensures
        ({
            let k = instances::position(m.instances, url);
            let after = instances::without(m, k, url);
            &&& after.instances.len() == m.instances.len() - 1
            &&& forall|j: int|
                0 <= j < k ==> #[trigger] after.instances[j] == m.instances[j]
            &&& forall|j: int|
                k <= j < after.instances.len() ==> #[trigger] after.instances[j] == m.instances[j
                    + 1]
            &&& merge_laws::lookup(after.instances, other) == merge_laws::lookup(
                m.instances,
                other,
            )
            &&& m.last_used != Some(url) ==> after.last_used == m.last_used
            &&& m.last_used == Some(url) ==> after.last_used is None
            &&& after.provisioned_hash == m.provisioned_hash
        }),
{
    let s = m.instances;
    let k = instances::position(s, url);
    let t = instances::without(m, k, url).instances;
    let p = instances::by_url(other);
    seqs::lemma_first_bounds(s, instances::by_url(url));
    seqs::lemma_first_bounds(s, p);
    let at = seqs::first(s, p);
    let moved: int = if at < k {
        at
    } else {
        at - 1
    };
    assert(at != k);
    assert forall|j: int| 0 <= j < moved implies !p(#[trigger] t[j]) by {
        if j < k {
            assert(!p(s[j]));
        } else {
            assert(!p(s[j + 1]));
        }
    }
    if at < s.len() {
        assert(t[moved] == s[at]);
    }
    seqs::lemma_first(t, p, moved);
}

/// Choosing a default changes marks alone: every server keeps its place, its
/// name, its address, its lock, its settings and its probe.
pub proof fn law_default_changes_marks_alone(m: StoreModel, k: int, j: int)
    requires
        0 <= k < m.instances.len(),
        0 <= j < m.instances.len(),
    ensures
        ({
            let after = commands::defaulted(m, k);
            let old = m.instances[j];
            let new = after.instances[j];
            &&& after.instances.len() == m.instances.len()
            &&& new.name == old.name
            &&& new.url == old.url
            &&& new.kiosk_allowed == old.kiosk_allowed
            &&& new.allow_insecure_tls == old.allow_insecure_tls
            &&& new.locked == old.locked
            &&& new.probe == old.probe
            &&& new.default == (j == k)
            &&& after.last_used == Some(m.instances[k].url)
            &&& after.provisioned_hash == m.provisioned_hash
        }),
{
}

/// A server may be added exactly where its address is accepted, its name is
/// not blank, there is a store, and no server of it has the address; it gets
/// the name without white space around it, and is the default where it is the
/// first. Otherwise the first of these that fails is told.
pub proof fn law_who_may_be_added(
    m: Option<StoreModel>,
    name: Seq<char>,
    url: Result<Seq<char>, Seq<char>>,
)
    ensures
        ({
            let r = commands::may_add(m, name, url);
            let blank = text::trim(name).len() == 0;
            &&& url is Err ==> r is Err && r->Err_0 == url->Err_0
            &&& url is Ok && blank ==> r is Err && r->Err_0 == "Name is required"@
            &&& url is Ok && !blank && m is None ==> r is Err && r->Err_0
                == "instance store is not initialized"@
            &&& url is Ok && !blank && m is Some ==> {
                let there = exists|k: int|
                    0 <= k < m->0.instances.len() && (#[trigger] m->0.instances[k]).url
                        == url->Ok_0;
                &&& there ==> r is Err && r->Err_0 == "An instance with URL "@ + url->Ok_0
                    + " already exists"@
                &&& !there ==> r is Ok && r->Ok_0.0 == text::trim(name) && r->Ok_0.1 == url->Ok_0
                    && (r->Ok_0.2 <==> m->0.instances.len() == 0)
            }
        }),
{
    if url is Ok && m is Some {
        lemma_there(m->0.instances, url->Ok_0);
    }
}

/// Whether some server has the URL.
proof fn lemma_there(s: Seq<InstanceModel>, url: Seq<char>)
    ensures
        instances::has_url(s, url) <==> exists|k: int|
            0 <= k < s.len() && (#[trigger] s[k]).url == url,
{
    if instances::has_url(s, url) {
        seqs::lemma_first_bounds(s, instances::by_url(url));
        assert(s[instances::position(s, url)].url == url);
    }
    if exists|k: int| 0 <= k < s.len() && (#[trigger] s[k]).url == url {
        let k = choose|k: int| 0 <= k < s.len() && (#[trigger] s[k]).url == url;
        law_server_is_found_by_its_url(s, url, k);
    }
}

/// An address that is given with an update is validated; without one there is
/// nothing to validate.
pub proof fn law_given_address_is_validated(raw: Seq<char>)
    ensures
        commands::validated_opt(None) is None,
        commands::validated_opt(Some(raw)) == Some(address::validated(raw)),
{
}

/// What a failure says: what went wrong, and the URL that it is about.
pub proof fn law_failures_say_what_went_wrong(e: StoreError)
    ensures
        e matches StoreError::Io(m) ==> instances::error_text(e) == m@,
        e matches StoreError::Json(m) ==> instances::error_text(e) == "invalid JSON: "@ + m@,
        e matches StoreError::NotFound(u) ==> instances::error_text(e) == "no instance with URL "@
            + u@,
        e matches StoreError::Duplicate(u) ==> instances::error_text(e) == "an instance with URL "@
            + u@ + " already exists"@,
        e matches StoreError::Invalid(m) ==> instances::error_text(e) == m@,
{
}

/// A server is added as it was asked for: with its name, its address, its
/// override and the outcome of its probe, not locked, and without a kiosk
/// preference.
pub proof fn law_server_is_added_as_asked(
    name: Seq<char>,
    url: Seq<char>,
    default: bool,
    allow_insecure_tls: Option<bool>,
    outcome: ProbeModel,
)
    ensures
        ({
            let i = commands::added(name, url, default, allow_insecure_tls, outcome);
            &&& i.name == name
            &&& i.url == url
            &&& i.default == default
            &&& i.allow_insecure_tls == allow_insecure_tls
            &&& i.probe == Some(outcome)
            &&& !i.locked
            &&& i.kiosk_allowed is None
        }),
{
}

/// A server may be changed exactly where it is there and not locked, the name,
/// where one is given, is not blank, and the address, where one is given, is
/// accepted and that of no other server. Otherwise the first of these that
/// fails is told.
pub proof fn law_who_may_be_changed(
    m: StoreModel,
    url: Seq<char>,
    name: Option<Seq<char>>,
    new_url: Option<Result<Seq<char>, Seq<char>>>,
)
    ensures
        ({
            let r = commands::may_update(Some(m), url, name, new_url);
            let there = exists|k: int|
                0 <= k < m.instances.len() && (#[trigger] m.instances[k]).url == url;
            let locked = merge_laws::lookup(m.instances, url) matches Some(i) && i.locked;
            let blank = name matches Some(n) && text::trim(n).len() == 0;
            let clash = new_url matches Some(Ok(u)) && u != url && exists|k: int|
                0 <= k < m.instances.len() && (#[trigger] m.instances[k]).url == u;
            &&& !there ==> r is Err && r->Err_0 == "No instance with URL "@ + url
            &&& there && locked ==> r is Err && r->Err_0
                == "This instance is locked by your administrator"@
            &&& there && !locked && blank ==> r is Err && r->Err_0 == "Name is required"@
            &&& there && !locked && !blank ==> match new_url {
                None => r is Ok && r->Ok_0 is None,
                Some(Err(e)) => r is Err && r->Err_0 == e,
                Some(Ok(u)) => if clash {
                    r is Err && r->Err_0 == "An instance with URL "@ + u + " already exists"@
                } else {
                    r is Ok && r->Ok_0 == Some(u)
                },
            }
        }),
        commands::may_update(None, url, name, new_url) == Err::<Option<Seq<char>>, Seq<char>>(
            "instance store is not initialized"@,
        ),
{
    lemma_there(m.instances, url);
    if new_url is Some && new_url->0 is Ok {
        lemma_there(m.instances, new_url->0->Ok_0);
    }
}

/// An update changes what it is given and nothing else. The name, where one is
/// given, is that without white space around it, whether or not an address was
/// given; without one it stays. The address and the probe stay without a new
/// address, and are the new ones with it. The override is the given one. Mark,
/// lock and kiosk preference stay, and so do all other servers.
pub proof fn law_update_changes_what_it_is_given(
    m: StoreModel,
    url: Seq<char>,
    name: Option<Seq<char>>,
    allow_insecure_tls: Option<bool>,
    probed: Option<(Seq<char>, ProbeModel)>,
    j: int,
)
    requires
        instances::has_url(m.instances, url),
        0 <= j < m.instances.len(),
    ensures
        ({
            let after = commands::store_updated(m, url, name, allow_insecure_tls, probed);
            let k = instances::position(m.instances, url);
            let old = m.instances[k];
            let new = after.instances[k];
            &&& after.instances.len() == m.instances.len()
            &&& j != k ==> after.instances[j] == m.instances[j]
            &&& name matches Some(n) ==> new.name == text::trim(n)
            &&& name is None ==> new.name == old.name
            &&& probed is None ==> new.url == url && new.probe == old.probe && after.last_used
                == m.last_used
            &&& probed matches Some((u, o)) ==> new.url == u && new.probe == Some(o)
            &&& probed is Some && m.last_used == Some(url) ==> after.last_used == Some(
                (probed->0).0,
            )
            &&& m.last_used != Some(url) ==> after.last_used == m.last_used
            &&& new.allow_insecure_tls == allow_insecure_tls
            &&& new.default == old.default
            &&& new.locked == old.locked
            &&& new.kiosk_allowed == old.kiosk_allowed
            &&& after.provisioned_hash == m.provisioned_hash
        }),
{
    seqs::lemma_first_bounds(m.instances, instances::by_url(url));
}

/// The server that an update changed is found afterwards, at its new address
/// where it got one that no other server has, else at its old one, and it is
/// shown with its new name.
pub proof fn law_updated_server_is_found_and_shown(
    m: StoreModel,
    url: Seq<char>,
    name: Seq<char>,
    allow_insecure_tls: Option<bool>,
    probed: Option<(Seq<char>, ProbeModel)>,
)
    requires
        instances::has_url(m.instances, url),
        probed matches Some((u, _)) ==> u == url || !instances::has_url(m.instances, u),
    ensures
        ({
            let address = match probed {
                Some((u, _)) => u,
                None => url,
            };
            let after = commands::store_updated(m, url, Some(name), allow_insecure_tls, probed);
            let shown = probe::instance_shown(
                commands::updated(commands::at(m, url), Some(name), allow_insecure_tls, probed),
            );
            &&& merge_laws::lookup(after.instances, address) is Some
            &&& merge_laws::lookup(after.instances, address)->0.name == text::trim(name)
            &&& shown.name == text::trim(name)
            &&& shown.url == address
            &&& shown.allow_insecure_tls == allow_insecure_tls
        }),
{
    let address = match probed {
        Some((u, _)) => u,
        None => url,
    };
    let s = m.instances;
    let k = instances::position(s, url);
    let t = commands::store_updated(m, url, Some(name), allow_insecure_tls, probed).instances;
    let p = instances::by_url(address);
    seqs::lemma_first_bounds(s, instances::by_url(url));
    seqs::lemma_first_bounds(s, p);
    assert forall|j: int| 0 <= j < k implies !p(#[trigger] t[j]) by {
        assert(t[j] == s[j]);
        if address == url {
            assert(!instances::by_url(url)(s[j]));
        } else {
            assert(!p(s[j]));
        }
    }
    seqs::lemma_first(t, p, k);
}

/// The server that is opened at startup is the first that is marked as the
/// default; without one the one that was used last, where it is still there;
/// else the first of all; and none where there is none.
pub proof fn law_startup_prefers_the_default(m: StoreModel, k: int)
    requires
        0 <= k < m.instances.len(),
    ensures
        ({
            let t = instances::startup_target(m);
            let marked = exists|j: int|
                0 <= j < m.instances.len() && (#[trigger] m.instances[j]).default;
            let used = m.last_used matches Some(u) && exists|j: int|
                0 <= j < m.instances.len() && (#[trigger] m.instances[j]).url == u;
            &&& t is Some
            &&& 0 <= t->0 < m.instances.len()
            &&& m.instances[k].default ==> m.instances[t->0].default && t->0 <= k
            &&& !marked && used ==> Some(m.instances[t->0].url) == m.last_used
            &&& !marked && !used ==> t->0 == 0
            &&& commands::startup_url(m) == Some(m.instances[t->0].url)
        }),
{
    let p = instances::by_default();
    seqs::lemma_first_bounds(m.instances, p);
    if m.instances[k].default {
        seqs::lemma_first_at_most(m.instances, p, k);
    }
    let d = seqs::first(m.instances, p);
    if d < m.instances.len() {
        assert(m.instances[d].default);
    }
    if m.last_used is Some {
        lemma_there(m.instances, m.last_used->0);
        seqs::lemma_first_bounds(m.instances, instances::by_url(m.last_used->0));
    }
}

/// Without servers none is opened.
pub proof fn law_nothing_to_open(m: StoreModel)
    requires
        m.instances.len() == 0,
    ensures
        instances::startup_target(m) is None,
        commands::startup_url(m) is None,
{
}

/// A server is probed exactly where its address is accepted and it is in the
/// store; its own override says whether untrusted certificates are accepted,
/// and the global toggle where it has none.
pub proof fn law_who_is_probed(
    m: StoreModel,
    url: Result<Seq<char>, Seq<char>>,
    global: bool,
)
    ensures
        ({
            let r = commands::may_probe(Some(m), url, global);
            &&& url is Err ==> r is Err && r->Err_0 == url->Err_0
            &&& url is Ok && merge_laws::lookup(m.instances, url->Ok_0) is None ==> r is Err
                && r->Err_0 == "No instance with URL "@ + url->Ok_0
            &&& url is Ok && merge_laws::lookup(m.instances, url->Ok_0) is Some ==> {
                let i = merge_laws::lookup(m.instances, url->Ok_0)->0;
                &&& r is Ok
                &&& r->Ok_0.0 == url->Ok_0
                &&& i.allow_insecure_tls matches Some(b) ==> r->Ok_0.1 == b
                &&& i.allow_insecure_tls is None ==> r->Ok_0.1 == global
            }
        }),
{
}

/// A server is shown as it is kept: with its name, its address, its mark, its
/// lock and its override, and with every finding of its probe.
pub proof fn law_server_is_shown_as_kept(i: InstanceModel)
    ensures
        ({
            let v = probe::instance_shown(i);
            &&& v.name == i.name
            &&& v.url == i.url
            &&& v.default == i.default
            &&& v.locked == i.locked
            &&& v.allow_insecure_tls == i.allow_insecure_tls
            &&& v.probe is Some <==> i.probe is Some
            &&& i.probe matches Some(p) ==> {
                let w = v.probe->0;
                &&& w.ok == p.ok
                &&& w.version == p.version
                &&& w.capabilities == p.capabilities
                &&& w.latest_version == p.latest_version
                &&& w.update_available == p.update_available
                &&& w.needs_setup == p.needs_setup
                &&& w.auth_failed == p.auth_failed
                &&& w.checked_at == p.checked_at
                &&& w == probe::probe_shown(i.url, p)
            }
        }),
{
}

// ---------------------------------------------------------------------------
// Probes
// ---------------------------------------------------------------------------

/// Taking a probe in changes the probe of that server alone.
pub proof fn law_probe_changes_one_server(
    m: StoreModel,
    url: Seq<char>,
    outcome: ProbeModel,
    now: u64,
    j: int,
)
    requires
        instances::has_url(m.instances, url),
        0 <= j < m.instances.len(),
    ensures
        ({
            let after = commands::with_probe(m, url, outcome, now);
            let k = instances::position(m.instances, url);
            let old = m.instances[k];
            let new = after.instances[k];
            &&& after.instances.len() == m.instances.len()
            &&& j != k ==> after.instances[j] == m.instances[j]
            &&& new.name == old.name
            &&& new.url == old.url
            &&& new.default == old.default
            &&& new.kiosk_allowed == old.kiosk_allowed
            &&& new.allow_insecure_tls == old.allow_insecure_tls
            &&& new.locked == old.locked
            &&& outcome.ok ==> new.probe == Some(outcome)
            &&& old.probe is None ==> new.probe == Some(outcome)
            &&& after.last_used == m.last_used
            &&& after.provisioned_hash == m.provisioned_hash
        }),
{
}

/// A server has a capability exactly where its last probe says so.
pub proof fn law_capability_is_what_the_probe_says(m: StoreModel, url: Seq<char>, key: Seq<char>)
    ensures
        instances::capability_of(m, url, key) == (match merge_laws::lookup(m.instances, url) {
            Some(i) => i.probe is Some && i.probe->0.capabilities.contains_key(key)
                && i.probe->0.capabilities[key],
            None => false,
        }),
        instances::probe_of(m, url) == (match merge_laws::lookup(m.instances, url) {
            Some(i) => i.probe,
            None => None,
        }),
{
}

/// The version that is told of a server is that of its probe; a probe that
/// failed and knows none tells none.
pub proof fn law_known_version_is_told(p: ProbeModel)
    ensures
        p.ok ==> instances::known_version(Some(p)) == Some(p.version),
        p.version.len() > 0 ==> instances::known_version(Some(p)) == Some(p.version),
        !p.ok && p.version.len() == 0 ==> instances::known_version(Some(p)) is None,
        instances::known_version(None) is None,
{
}

/// Without a probe there is no capability.
pub proof fn law_no_probe_no_capability(m: StoreModel, url: Seq<char>, key: Seq<char>)
    requires
        instances::probe_of(m, url) is None,
    ensures
        !instances::capability_of(m, url, key),
{
}

/// A server that no probe has reached has no capability: the first probe, when
/// it fails, brings none.
pub proof fn law_first_failure_brings_no_capability(
    m: StoreModel,
    url: Seq<char>,
    key: Seq<char>,
    reason: Seq<char>,
    now: u64,
)
    requires
        instances::has_url(m.instances, url),
        instances::probe_of(m, url) is None,
    ensures
        !instances::capability_of(
            commands::with_probe(m, url, probe::unreachable_model(reason, now), now),
            url,
            key,
        ),
{
    lemma_with_probe(m, url, probe::unreachable_model(reason, now), now);
}

/// Taking a probe in leaves the servers where they are.
proof fn lemma_with_probe(m: StoreModel, url: Seq<char>, outcome: ProbeModel, now: u64)
    requires
        instances::has_url(m.instances, url),
    ensures
        ({
            let s = commands::with_probe(m, url, outcome, now).instances;
            &&& instances::position(s, url) == instances::position(m.instances, url)
            &&& s.len() == m.instances.len()
        }),
{
    let s = commands::with_probe(m, url, outcome, now).instances;
    let p = instances::by_url(url);
    let k = instances::position(m.instances, url);
    seqs::lemma_first_bounds(m.instances, p);
    assert forall|j: int| 0 <= j < k implies !p(#[trigger] s[j]) by {
        assert(s[j] == m.instances[j]);
    }
    seqs::lemma_first(s, p, k);
}

/// Taking a probe in keeps the URLs distinct.
pub proof fn law_probe_keeps_urls_distinct(
    m: StoreModel,
    url: Seq<char>,
    outcome: ProbeModel,
    now: u64,
)
    requires
        merge_laws::distinct_urls(m.instances),
        instances::has_url(m.instances, url),
    ensures
        merge_laws::distinct_urls(commands::with_probe(m, url, outcome, now).instances),
{
    let s = commands::with_probe(m, url, outcome, now).instances;
    assert forall|i: int, j: int| 0 <= i < j < s.len() implies (#[trigger] s[i]).url != (
    #[trigger] s[j]).url by {
        assert(m.instances[i].url != m.instances[j].url);
    }
}

/// A server has a capability after a probe only where it had it before, or
/// where the probe reached the server and the server reported it.
pub proof fn law_capability_is_reported(
    m: StoreModel,
    url: Seq<char>,
    key: Seq<char>,
    status: Result<StatusModel, Seq<char>>,
    setup_path: Option<Seq<char>>,
    auth_status: Option<u16>,
    checked: u64,
    now: u64,
)
    requires
        instances::has_url(m.instances, url),
        instances::capability_of(
            commands::with_probe(
                m,
                url,
                probe::probed(status, setup_path, auth_status, checked),
                now,
            ),
            url,
            key,
        ),
    ensures
        instances::capability_of(m, url, key) || (status matches Ok(s)
            && s.capabilities.contains_key(key) && s.capabilities[key]),
{
    lemma_with_probe(m, url, probe::probed(status, setup_path, auth_status, checked), now);
}

/// A probe that fails takes nothing away that an earlier one told: the server
/// keeps its version and every capability.
pub proof fn law_failure_keeps_what_was_known(
    m: StoreModel,
    url: Seq<char>,
    outcome: ProbeModel,
    now: u64,
)
    requires
        instances::probe_of(m, url) is Some,
        !outcome.ok,
    ensures
        ({
            let before = instances::probe_of(m, url)->0;
            let after = commands::with_probe(m, url, outcome, now);
            &&& instances::probe_of(after, url) == Some(
                ProbeModel { ok: false, checked_at: now, ..before },
            )
            &&& forall|key: Seq<char>| #[trigger]
                instances::capability_of(after, url, key) == instances::capability_of(m, url, key)
        }),
{
    lemma_with_probe(m, url, outcome, now);
}

/// Versions are in order: none comes before itself, what comes before another
/// comes before all that follow it, and of two different ones one comes first.
pub proof fn law_versions_are_ordered(a: (u64, u64, u64), b: (u64, u64, u64), c: (u64, u64, u64))
    ensures
        !probe::earlier(a, a),
        probe::earlier(a, b) && probe::earlier(b, c) ==> probe::earlier(a, c),
        a == b || probe::earlier(a, b) || probe::earlier(b, a),
{
}

/// The version `1.0.0` is what it looks like.
proof fn lemma_floor()
    ensures
        probe::version_of(probe::MIN_SERVER_DRIVE@) == Some((1u64, 0u64, 0u64)),
{
    reveal_strlit("1.0.0");
    let v = "1.0.0"@;
    let one = seq!['1'];
    let zero = seq!['0'];
    assert(text::trim_space_end(v) == v);
    assert(text::trim_space_start(v) == v);
    assert(text::trim_start(v, 'v') == v);
    text::lemma_find(v, '.', 1);
    let r = v.skip(2);
    assert(r =~= seq!['0', '.', '0']);
    text::lemma_find(r, '.', 1);
    let t = r.skip(2);
    assert(t =~= zero);
    text::lemma_find(t, '.', 1);
    text::lemma_find(t, '-', 1);
    text::lemma_find(t, '+', 1);
    assert(v.take(1) =~= one);
    assert(r.take(1) =~= zero);
    assert(t.take(1) =~= zero);
    assert(one.drop_last() =~= Seq::<char>::empty());
    assert(zero.drop_last() =~= Seq::<char>::empty());
    reveal_with_fuel(text::digits_value, 2);
    assert(text::parse_u64(one) == Some(1u64));
    assert(text::parse_u64(zero) == Some(0u64));
}

/// A server is warned about exactly when its version can be read and lies
/// before 1.0.0, and then about the drive API and about events and pairing.
pub proof fn law_old_servers_are_warned_about(version: Seq<char>)
    ensures
        probe::version_warnings(version) == (if probe::version_of(version) matches Some(v)
            && probe::earlier(v, (1, 0, 0)) {
            seq![probe::drive_warning(version), probe::full_warning(version)]
        } else {
            seq![]
        }),
{
    lemma_floor();
    assert(probe::version_warnings(version) =~= (if probe::version_of(version) matches Some(v)
        && probe::earlier(v, (1, 0, 0)) {
        seq![probe::drive_warning(version), probe::full_warning(version)]
    } else {
        seq![]
    }));
}

// ---------------------------------------------------------------------------
// Addresses
// ---------------------------------------------------------------------------

/// An accepted address is https, or plain http to this machine.
pub proof fn law_accepted_is_https_or_local(raw: Seq<char>)
    requires
        address::validated(raw) is Ok,
    ensures
        web::url_parse(address::validated(raw)->Ok_0) matches Ok(u) && (u.scheme == "https"@ || (
        u.scheme == "http"@ && (u.host matches Some(h) && probe::loopback(h)))),
{
}

/// An address is accepted exactly where it is not empty, parses, and is one of
/// https with a host or one of plain http to this machine; it is kept as it
/// was tidied. Otherwise the first of these that fails is told.
pub proof fn law_which_addresses_are_accepted(
    tidied: Seq<char>,
    parsed: Result<web::UrlModel, Seq<char>>,
)
    ensures
        ({
            let r = address::accepted(tidied, parsed);
            let u = parsed->Ok_0;
            let local = u.host is Some && probe::loopback(u.host->0);
            &&& tidied.len() == 0 ==> r is Err && r->Err_0 == "URL is required"@
            &&& tidied.len() > 0 && parsed is Err ==> r is Err && r->Err_0 == "Invalid URL: "@
                + parsed->Err_0
            &&& tidied.len() > 0 && parsed is Ok ==> {
                &&& u.scheme == "https"@ && u.host is Some ==> r is Ok && r->Ok_0 == tidied
                &&& u.scheme == "https"@ && u.host is None ==> r is Err && r->Err_0
                    == "URL must include a host"@
                &&& u.scheme == "http"@ && local ==> r is Ok && r->Ok_0 == tidied
                &&& u.scheme == "http"@ && !local ==> r is Err && r->Err_0 == address::HTTPS_ONLY@
                &&& u.scheme != "https"@ && u.scheme != "http"@ ==> r is Err && r->Err_0
                    == address::WRONG_SCHEME@
            }
        }),
{
    reveal_strlit("http");
    reveal_strlit("https");
    assert("https"@.len() == 5 && "http"@.len() == 4);
}

/// An address is tidied of white space around it and of slashes at its end, and
/// of nothing else.
pub proof fn law_tidying_drops_space_and_slashes(raw: Seq<char>, c: char)
    ensures
        raw.len() > 0 && !text_laws::white(raw[0]) && !text_laws::white(raw.last()) && raw.last()
            != '/' ==> address::tidy(raw) == raw,
        text_laws::white(c) ==> address::tidy(raw.push(c)) == address::tidy(raw),
        text_laws::white(c) ==> address::tidy(seq![c] + raw) == address::tidy(raw),
        raw.len() > 0 && !text_laws::white(raw[0]) && !text_laws::white(raw.last())
            ==> address::tidy(raw.push('/')) == address::tidy(raw),
        text_laws::white(c) ==> address::validated(raw.push(c)) == address::validated(raw),
        text_laws::white(c) ==> address::validated(seq![c] + raw) == address::validated(raw),
{
    if text_laws::white(c) {
        text_laws::law_white_space_is_dropped(raw, c);
    }
    if raw.len() > 0 && !text_laws::white(raw[0]) && !text_laws::white(raw.last()) {
        text_laws::law_tight_text_is_kept(raw);
        lemma_slash_is_tight();
        text_laws::law_tight_text_is_kept(raw.push('/'));
        text_laws::law_run_at_the_end_is_dropped(raw, '/');
    }
}

/// A slash is no white space.
proof fn lemma_slash_is_tight()
    ensures
        !text_laws::white('/'),
{
}

/// The hash of a key goes byte by byte: each byte is mixed in before the
/// multiplication.
pub proof fn law_hash_goes_byte_by_byte(data: Seq<u8>, b: u8, seed: u64)
    ensures
        address::fnv(Seq::empty(), seed) == seed,
        address::fnv(data.push(b), seed) == (address::fnv(data, seed) ^ (b as u64)).wrapping_mul(
            0x100_0000_01b3,
        ),
{
    assert(data.push(b).drop_last() =~= data);
}

/// The key of a server is made of the two hashes of its URL.
pub proof fn law_key_is_made_of_two_hashes(url: Seq<char>)
    requires
        url.len() > 0 ==> url.last() != '/',
    ensures
        address::key_of(url) == "persea-"@ + text::hex16(
            address::fnv(encode_utf8(url), 0xcbf2_9ce4_8422_2325),
        ) + text::hex16(address::fnv(encode_utf8(url), 0x8422_2325_cbf2_9ce4)),
{
}

/// An accepted address over plain http is warned about, whatever its port.
pub proof fn law_plain_http_is_warned_about(raw: Seq<char>, version: Seq<char>)
    requires
        address::validated(raw) is Ok,
        web::url_parse(address::validated(raw)->Ok_0)->Ok_0.scheme == "http"@,
    ensures
        ({
            let url = address::validated(raw)->Ok_0;
            probe::warnings(url, web::url_parse(url), version).last() == probe::PLAIN_HTTP_WARNING@
        }),
{
}

/// An accepted address is kept as it is when it is validated again, where no
/// white space stood before the slashes at its end.
pub proof fn law_validation_is_stable(raw: Seq<char>)
    requires
        address::validated(raw) is Ok,
        !text::is_space(address::validated(raw)->Ok_0.last()),
    ensures
        address::validated(address::validated(raw)->Ok_0) == address::validated(raw),
{
    let u = address::validated(raw)->Ok_0;
    let t = text::trim(raw);
    text::lemma_trim_end(t, '/');
    text::lemma_trim_space_start(text::trim_space_end(raw));
    assert(u.first() == t.first());
    assert(text::trim_space_end(u) == u);
    assert(text::trim_space_start(u) == u);
    assert(text::trim_end(u, '/') == u);
}

/// An accepted address is not empty and does not end in a slash.
pub proof fn law_accepted_has_no_slash_at_its_end(raw: Seq<char>)
    requires
        address::validated(raw) is Ok,
    ensures
        address::validated(raw)->Ok_0.len() > 0,
        address::validated(raw)->Ok_0.last() != '/',
{
    text::lemma_trim_end(text::trim(raw), '/');
}

/// The key of a server does not depend on slashes at the end of its URL.
pub proof fn law_key_ignores_slashes(url: Seq<char>)
    ensures
        address::key_of(url.push('/')) == address::key_of(url),
        address::key_of(text::trim_end(url, '/')) == address::key_of(url),
{
    assert(url.push('/').drop_last() =~= url);
    text::lemma_trim_end(url, '/');
}

/// A key is `persea-` and 32 hexadecimal digits.
pub proof fn law_key_shape(url: Seq<char>)
    ensures
        address::key_of(url).len() == 7 + 32,
        text::starts_with(address::key_of(url), "persea-"@),
        forall|i: int| 7 <= i < 39 ==> text::is_hex_digit(#[trigger] address::key_of(url)[i]),
{
    reveal_strlit("persea-");
    let bytes = encode_utf8(text::trim_end(url, '/'));
    text::lemma_hex_len(address::fnv(bytes, address::FIRST_SEED) as nat, 16);
    text::lemma_hex_len(address::fnv(bytes, address::SECOND_SEED) as nat, 16);
    assert(address::key_of(url).take(7) =~= "persea-"@);
    let k = address::key_of(url);
    let a = text::hex16(address::fnv(bytes, address::FIRST_SEED));
    let b = text::hex16(address::fnv(bytes, address::SECOND_SEED));
    text::lemma_hex_digits(address::fnv(bytes, address::FIRST_SEED) as nat, 16);
    text::lemma_hex_digits(address::fnv(bytes, address::SECOND_SEED) as nat, 16);
    assert forall|i: int| 7 <= i < 39 implies text::is_hex_digit(#[trigger] k[i]) by {
        if i < 23 {
            assert(k[i] == a[i - 7]);
        } else {
            assert(k[i] == b[i - 23]);
        }
    }
}

/// Two servers share a key only where both hashes of their URLs agree.
pub proof fn law_keys_differ_with_the_hashes(a: Seq<char>, b: Seq<char>)
    requires
        address::key_of(a) == address::key_of(b),
    ensures
        ({
            let x = encode_utf8(text::trim_end(a, '/'));
            let y = encode_utf8(text::trim_end(b, '/'));
            &&& address::fnv(x, address::FIRST_SEED) == address::fnv(y, address::FIRST_SEED)
            &&& address::fnv(x, address::SECOND_SEED) == address::fnv(y, address::SECOND_SEED)
        }),
{
    reveal_strlit("persea-");
    let x = encode_utf8(text::trim_end(a, '/'));
    let y = encode_utf8(text::trim_end(b, '/'));
    let x1 = address::fnv(x, address::FIRST_SEED);
    let x2 = address::fnv(x, address::SECOND_SEED);
    let y1 = address::fnv(y, address::FIRST_SEED);
    let y2 = address::fnv(y, address::SECOND_SEED);
    text::lemma_hex_len(x1 as nat, 16);
    text::lemma_hex_len(x2 as nat, 16);
    text::lemma_hex_len(y1 as nat, 16);
    text::lemma_hex_len(y2 as nat, 16);
    let k = address::key_of(a);
    assert(k.subrange(7, 23) =~= text::hex16(x1));
    assert(k.subrange(7, 23) =~= text::hex16(y1));
    assert(k.subrange(23, 39) =~= text::hex16(x2));
    assert(k.subrange(23, 39) =~= text::hex16(y2));
    reveal_with_fuel(text::hex_bound, 17);
    text::lemma_hex_injective(x1 as nat, y1 as nat, 16);
    text::lemma_hex_injective(x2 as nat, y2 as nat, 16);
}

} // verus!

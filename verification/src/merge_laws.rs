//! What a provision merge leaves alone, what it brings about, and that a
//! second merge of the same document changes nothing.

use vstd::prelude::*;

use crate::instances;
use crate::instances::{InstanceModel, StoreModel};
use crate::provisioning;
use crate::provisioning::{EntryModel, MergeState};
use crate::seqs;

verus! {

broadcast use seqs::lemma_first_range;

/// No two servers have the same URL.
pub open spec fn distinct_urls(s: Seq<InstanceModel>) -> bool {
    forall|i: int, j: int| 0 <= i < j < s.len() ==> (#[trigger] s[i]).url != (#[trigger] s[j]).url
}

/// No two entries of the document have the same URL.
pub open spec fn distinct_entries(doc: Seq<EntryModel>) -> bool {
    forall|i: int, j: int|
        0 <= i < j < doc.len() ==> (#[trigger] doc[i]).url != (#[trigger] doc[j]).url
}

/// At most one entry of the document is a default.
pub open spec fn one_default(doc: Seq<EntryModel>) -> bool {
    forall|i: int, j: int|
        0 <= i < j < doc.len() ==> !((#[trigger] doc[i]).default && (#[trigger] doc[j]).default)
}

/// The server with the URL.
pub open spec fn lookup(s: Seq<InstanceModel>, url: Seq<char>) -> Option<InstanceModel> {
    if instances::has_url(s, url) {
        Some(s[instances::position(s, url)])
    } else {
        None
    }
}

/// Being one of the user's own entries.
pub open spec fn own() -> spec_fn(InstanceModel) -> bool {
    |i: InstanceModel| !i.locked
}

/// Whether a server stands in the list under the URL.
proof fn lemma_lookup(s: Seq<InstanceModel>, k: int)
    requires
        0 <= k < s.len(),
    ensures
        instances::has_url(s, s[k].url),
        distinct_urls(s) ==> instances::position(s, s[k].url) == k,
{
    let p = instances::by_url(s[k].url);
    seqs::lemma_first_at_most(s, p, k);
    seqs::lemma_first_bounds(s, p);
    if distinct_urls(s) && seqs::first(s, p) < k {
        assert(s[seqs::first(s, p)].url == s[k].url);
    }
}

/// The server that `position` gives has the URL.
proof fn lemma_position(s: Seq<InstanceModel>, url: Seq<char>)
    ensures
        instances::has_url(s, url) ==> s[instances::position(s, url)].url == url,
        !instances::has_url(s, url) ==> forall|k: int|
            0 <= k < s.len() ==> (#[trigger] s[k]).url != url,
        0 <= instances::position(s, url) <= s.len(),
{
    let p = instances::by_url(url);
    seqs::lemma_first_bounds(s, p);
    if !instances::has_url(s, url) {
        assert forall|k: int| 0 <= k < s.len() implies (#[trigger] s[k]).url != url by {
            assert(!p(s[k]));
        }
    }
}

/// What one more server adds to the list.
proof fn lemma_lookup_push(s: Seq<InstanceModel>, x: InstanceModel, url: Seq<char>)
    ensures
        lookup(s.push(x), url) == (if instances::has_url(s, url) {
            lookup(s, url)
        } else if x.url == url {
            Some(x)
        } else {
            None
        }),
{
    let t = s.push(x);
    let p = instances::by_url(url);
    seqs::lemma_first_bounds(s, p);
    let k = seqs::first(s, p);
    assert forall|j: int| 0 <= j < k implies !p(#[trigger] t[j]) by {
        assert(t[j] == s[j]);
    }
    if k < s.len() {
        assert(t[k] == s[k]);
        seqs::lemma_first(t, p, k);
    } else if x.url == url {
        seqs::lemma_first(t, p, k);
    } else {
        assert forall|j: int| 0 <= j < k + 1 implies !p(#[trigger] t[j]) by {
            if j < k {
                assert(t[j] == s[j]);
            }
        }
        seqs::lemma_first(t, p, k + 1);
    }
}

/// What replacing the server at a URL changes.
proof fn lemma_lookup_update(s: Seq<InstanceModel>, x: InstanceModel, url: Seq<char>)
    requires
        instances::has_url(s, x.url),
    ensures
        lookup(s.update(instances::position(s, x.url), x), url) == (if x.url == url {
            Some(x)
        } else {
            lookup(s, url)
        }),
{
    let at = instances::position(s, x.url);
    let t = s.update(at, x);
    let p = instances::by_url(url);
    lemma_position(s, x.url);
    seqs::lemma_first_bounds(s, p);
    let k = seqs::first(s, p);
    assert forall|j: int| 0 <= j < k implies !p(#[trigger] t[j]) by {
        assert(!p(s[j]));
    }
    seqs::lemma_first(t, p, k);
}

/// Which servers a filter leaves under a URL.
proof fn lemma_lookup_filter(
    s: Seq<InstanceModel>,
    p: spec_fn(InstanceModel) -> bool,
    url: Seq<char>,
)
    requires
        distinct_urls(s),
    ensures
        distinct_urls(s.filter(p)),
        lookup(s.filter(p), url) == (match lookup(s, url) {
            Some(i) => if p(i) {
                Some(i)
            } else {
                None
            },
            None => None,
        }),
    decreases s.len(),
{
    reveal(Seq::filter);
    if s.len() > 0 {
        let t = s.drop_last();
        let x = s.last();
        assert(t.push(x) =~= s);
        assert forall|i: int, j: int| 0 <= i < j < t.len() implies (#[trigger] t[i]).url
            != (#[trigger] t[j]).url by {
            assert(t[i] == s[i] && t[j] == s[j]);
        }
        lemma_lookup_filter(t, p, url);
        lemma_lookup_push(t, x, url);
        lemma_lookup_push(t.filter(p), x, url);
        lemma_position(t, x.url);
        if instances::has_url(t, x.url) {
            let k = instances::position(t, x.url);
            assert(s[k] == t[k]);
            assert(s[s.len() - 1] == x);
            assert(false);
        }
        seqs::lemma_filter_from(t, p);
        let f = t.filter(p);
        assert forall|i: int, j: int| 0 <= i < j < s.filter(p).len() implies (#[trigger] s.filter(
            p,
        )[i]).url != (#[trigger] s.filter(p)[j]).url by {
            assert(s.filter(p)[i] == f[i]);
            if j == f.len() {
                assert(t.contains(f[i]));
            } else {
                assert(s.filter(p)[j] == f[j]);
            }
        }
    }
}

/// Which servers stand under a URL once the other default marks are gone.
proof fn lemma_lookup_default(s: Seq<InstanceModel>, default: Seq<char>, url: Seq<char>)
    ensures
        lookup(provisioning::only_default(s, default), url) == (match lookup(s, url) {
            Some(i) => Some(provisioning::yielded(i, default)),
            None => None,
        }),
        distinct_urls(s) ==> distinct_urls(provisioning::only_default(s, default)),
{
    let t = provisioning::only_default(s, default);
    let p = instances::by_url(url);
    seqs::lemma_first_bounds(s, p);
    let k = seqs::first(s, p);
    assert forall|j: int| 0 <= j < k implies !p(#[trigger] t[j]) by {
        assert(!p(s[j]));
    }
    seqs::lemma_first(t, p, k);
    if distinct_urls(s) {
        assert forall|i: int, j: int| 0 <= i < j < t.len() implies (#[trigger] t[i]).url
            != (#[trigger] t[j]).url by {
            assert(s[i].url != s[j].url);
        }
    }
}

// ---------------------------------------------------------------------------
// The entries of the document, one after the other
// ---------------------------------------------------------------------------

/// Merging entries keeps the URLs distinct and the user's own entries as they
/// are.
proof fn lemma_entries_keep(before: Seq<InstanceModel>, doc: Seq<EntryModel>)
    requires
        distinct_urls(before),
    ensures
        distinct_urls(provisioning::merge_entries(before, doc).instances),
    decreases doc.len(),
{
    if doc.len() > 0 {
        lemma_entries_keep(before, doc.drop_last());
        let st = provisioning::merge_entries(before, doc.drop_last());
        let p = doc.last();
        let after = provisioning::merge_entry(st, p);
        lemma_position(st.instances, p.url);
        assert forall|i: int, j: int| 0 <= i < j < after.instances.len() implies (
        #[trigger] after.instances[i]).url != (#[trigger] after.instances[j]).url by {
            if j < st.instances.len() {
                assert(st.instances[i].url != st.instances[j].url);
            }
        }
    }
}

/// Merging entries leaves the user's own entries as they are.
proof fn lemma_entries_own(before: Seq<InstanceModel>, doc: Seq<EntryModel>)
    ensures
        provisioning::merge_entries(before, doc).instances.filter(own()) == before.filter(own()),
    decreases doc.len(),
{
    if doc.len() > 0 {
        lemma_entries_own(before, doc.drop_last());
        let st = provisioning::merge_entries(before, doc.drop_last());
        let p = doc.last();
        let k = instances::position(st.instances, p.url);
        if k == st.instances.len() {
            seqs::lemma_filter_push(st.instances, provisioning::provisioned(p), own());
        } else if st.instances[k].locked {
            seqs::lemma_filter_update(
                st.instances,
                own(),
                k,
                InstanceModel { name: p.name, default: p.default, ..st.instances[k] },
            );
        }
    }
}

/// What stands under a URL after the entries were merged: nothing that stood
/// there is lost, and no entry is passed over.
proof fn lemma_entries_present(before: Seq<InstanceModel>, doc: Seq<EntryModel>, url: Seq<char>)
    ensures
        instances::has_url(provisioning::merge_entries(before, doc).instances, url) <==> (
        instances::has_url(before, url) || provisioning::provides(doc, url)),
        provisioning::merge_entries(before, doc).default matches Some(d)
            ==> provisioning::provides(doc, d),
    decreases doc.len(),
{
    if doc.len() > 0 {
        let head = doc.drop_last();
        lemma_entries_present(before, head, url);
        let st = provisioning::merge_entries(before, head);
        let p = doc.last();
        lemma_lookup_push(st.instances, provisioning::provisioned(p), url);
        lemma_position(st.instances, p.url);
        if instances::has_url(st.instances, p.url) {
            let x = InstanceModel {
                name: p.name,
                default: p.default,
                ..st.instances[instances::position(st.instances, p.url)]
            };
            lemma_lookup_update(st.instances, x, url);
        }
        assert(doc[doc.len() - 1] == p);
        if provisioning::provides(head, url) {
            let j = choose|j: int| 0 <= j < head.len() && (#[trigger] head[j]).url == url;
            assert(doc[j].url == url);
        }
        if provisioning::provides(doc, url) && p.url != url {
            let j = choose|j: int| 0 <= j < doc.len() && (#[trigger] doc[j]).url == url;
            assert(head[j].url == url);
        }
        if st.default is Some {
            let d = st.default->0;
            let j = choose|j: int| 0 <= j < head.len() && (#[trigger] head[j]).url == d;
            assert(doc[j].url == d);
        }
    }
}

/// The entry of the document with the URL.
pub open spec fn entry(doc: Seq<EntryModel>, url: Seq<char>) -> Option<EntryModel>
    decreases doc.len(),
{
    if doc.len() == 0 {
        None
    } else if doc.last().url == url {
        Some(doc.last())
    } else {
        entry(doc.drop_last(), url)
    }
}

/// An entry of a document stands under its URL.
proof fn lemma_entry(doc: Seq<EntryModel>, url: Seq<char>)
    ensures
        entry(doc, url) is Some <==> provisioning::provides(doc, url),
        entry(doc, url) matches Some(p) ==> p.url == url && doc.contains(p),
    decreases doc.len(),
{
    if doc.len() > 0 {
        let head = doc.drop_last();
        lemma_entry(head, url);
        assert(doc[doc.len() - 1] == doc.last());
        if provisioning::provides(head, url) {
            let j = choose|j: int| 0 <= j < head.len() && (#[trigger] head[j]).url == url;
            assert(doc[j].url == url);
        }
        if provisioning::provides(doc, url) && doc.last().url != url {
            let j = choose|j: int| 0 <= j < doc.len() && (#[trigger] doc[j]).url == url;
            assert(head[j].url == url);
        }
        if entry(head, url) is Some {
            let p = entry(head, url)->0;
            let j = choose|j: int| 0 <= j < head.len() && head[j] == p;
            assert(doc[j] == p);
        }
    }
}

/// What the entries of a document make of what stood under a URL.
pub open spec fn taken_over(
    before: Option<InstanceModel>,
    p: Option<EntryModel>,
) -> Option<InstanceModel> {
    match (before, p) {
        (None, Some(p)) => Some(provisioning::provisioned(p)),
        (Some(i), Some(p)) => if i.locked {
            Some(InstanceModel { name: p.name, default: p.default, ..i })
        } else {
            Some(i)
        },
        (i, None) => i,
    }
}

/// The part of a document with distinct URLs before its last entry.
proof fn lemma_head(doc: Seq<EntryModel>)
    requires
        doc.len() > 0,
        distinct_entries(doc),
    ensures
        distinct_entries(doc.drop_last()),
        !provisioning::provides(doc.drop_last(), doc.last().url),
        one_default(doc) ==> one_default(doc.drop_last()),
{
    let head = doc.drop_last();
    assert forall|i: int, j: int| 0 <= i < j < head.len() implies (#[trigger] head[i]).url != (
    #[trigger] head[j]).url by {
        assert(doc[i].url != doc[j].url);
    }
    assert(doc[doc.len() - 1] == doc.last());
    if provisioning::provides(head, doc.last().url) {
        let j = choose|j: int| 0 <= j < head.len() && (#[trigger] head[j]).url == doc.last().url;
        assert(doc[j].url == doc.last().url);
    }
    if one_default(doc) {
        assert forall|i: int, j: int| 0 <= i < j < head.len() implies !((#[trigger] head[i]).default
            && (#[trigger] head[j]).default) by {
            assert(!(doc[i].default && doc[j].default));
        }
    }
}

/// What stands under each URL after the entries were merged.
proof fn lemma_entries_at(before: Seq<InstanceModel>, doc: Seq<EntryModel>, url: Seq<char>)
    requires
        distinct_entries(doc),
    ensures
        lookup(provisioning::merge_entries(before, doc).instances, url) == taken_over(
            lookup(before, url),
            entry(doc, url),
        ),
    decreases doc.len(),
{
    if doc.len() > 0 {
        let head = doc.drop_last();
        let p = doc.last();
        lemma_head(doc);
        lemma_entries_at(before, head, url);
        lemma_entries_at(before, head, p.url);
        lemma_entry(head, p.url);
        let st = provisioning::merge_entries(before, head);
        lemma_position(st.instances, p.url);
        lemma_lookup_push(st.instances, provisioning::provisioned(p), url);
        if instances::has_url(st.instances, p.url) {
            let x = InstanceModel {
                name: p.name,
                default: p.default,
                ..st.instances[instances::position(st.instances, p.url)]
            };
            lemma_lookup_update(st.instances, x, url);
        }
    }
}

/// The default that a document with at most one default sets: that of the
/// entry, unless the user's own entry has its URL.
proof fn lemma_entries_default(before: Seq<InstanceModel>, doc: Seq<EntryModel>, url: Seq<char>)
    requires
        distinct_entries(doc),
        one_default(doc),
    ensures
        provisioning::merge_entries(before, doc).default == Some(url) <==> {
            &&& entry(doc, url) matches Some(p) && p.default
            &&& lookup(before, url) matches Some(i) ==> i.locked
        },
    decreases doc.len(),
{
    if doc.len() > 0 {
        let head = doc.drop_last();
        let p = doc.last();
        lemma_head(doc);
        lemma_entries_default(before, head, url);
        lemma_entries_at(before, head, p.url);
        lemma_entry(head, p.url);
        lemma_entry(head, url);
        let st = provisioning::merge_entries(before, head);
        lemma_position(st.instances, p.url);
        if p.default {
            if entry(head, url) is Some {
                let q = entry(head, url)->0;
                let j = choose|j: int| 0 <= j < head.len() && head[j] == q;
                assert(doc[j] == q);
                assert(doc[doc.len() - 1] == p);
                assert(!(doc[j].default && doc[doc.len() - 1].default));
            }
        }
    }
}

// ---------------------------------------------------------------------------
// Laws
// ---------------------------------------------------------------------------

/// A merge never touches the user's own entries: the same ones stand in the
/// store afterwards, in the same order, and the most that happens to one is
/// that its default mark gives way to a provisioned default.
pub proof fn law_own_entries_stay(m: StoreModel, doc: Seq<EntryModel>)
    ensures
        provisioning::merged(m, doc).instances.filter(own()) == (
        match provisioning::merge_entries(m.instances, doc).default {
            Some(d) => provisioning::only_default(m.instances.filter(own()), d),
            None => m.instances.filter(own()),
        }),
{
    let st = provisioning::merge_entries(m.instances, doc);
    let kept = st.instances.filter(provisioning::stays(doc));
    lemma_entries_own(m.instances, doc);
    seqs::lemma_filter_filter(st.instances, provisioning::stays(doc), own());
    if st.default is Some {
        let d = st.default->0;
        seqs::lemma_filter_map(kept, own(), |i: InstanceModel| provisioning::yielded(i, d));
    }
}

/// After a merge every locked entry is one that the document has.
pub proof fn law_locked_are_provided(m: StoreModel, doc: Seq<EntryModel>, k: int)
    requires
        0 <= k < provisioning::merged(m, doc).instances.len(),
        provisioning::merged(m, doc).instances[k].locked,
    ensures
        provisioning::provides(doc, provisioning::merged(m, doc).instances[k].url),
{
    let st = provisioning::merge_entries(m.instances, doc);
    seqs::lemma_filter_from(st.instances, provisioning::stays(doc));
}

/// After a merge every URL of the document is in the store.
pub proof fn law_provided_are_present(m: StoreModel, doc: Seq<EntryModel>, url: Seq<char>)
    requires
        provisioning::provides(doc, url),
    ensures
        instances::has_url(provisioning::merged(m, doc).instances, url),
{
    let st = provisioning::merge_entries(m.instances, doc);
    let keep = provisioning::stays(doc);
    lemma_entries_present(m.instances, doc, url);
    lemma_position(st.instances, url);
    let k = instances::position(st.instances, url);
    seqs::lemma_filter_keeps(st.instances, keep, k);
    let kept = st.instances.filter(keep);
    let j = choose|j: int| 0 <= j < kept.len() && kept[j] == st.instances[k];
    lemma_lookup(kept, j);
    if st.default is Some {
        lemma_lookup_default(kept, st.default->0, url);
    }
}

/// A merge keeps the URLs of the store distinct.
pub proof fn law_merge_keeps_urls_distinct(m: StoreModel, doc: Seq<EntryModel>)
    requires
        distinct_urls(m.instances),
    ensures
        distinct_urls(provisioning::merged(m, doc).instances),
{
    let st = provisioning::merge_entries(m.instances, doc);
    lemma_entries_keep(m.instances, doc);
    lemma_lookup_filter(st.instances, provisioning::stays(doc), seq![]);
    if st.default is Some {
        lemma_lookup_default(
            st.instances.filter(provisioning::stays(doc)),
            st.default->0,
            seq![],
        );
    }
}

/// A provisioned default wins: after a merge that sets one, no entry but
/// that at its URL is marked as the default.
pub proof fn law_provisioned_default_wins(m: StoreModel, doc: Seq<EntryModel>, k: int)
    requires
        provisioning::merge_entries(m.instances, doc).default is Some,
        0 <= k < provisioning::merged(m, doc).instances.len(),
        provisioning::merged(m, doc).instances[k].default,
    ensures
        Some(provisioning::merged(m, doc).instances[k].url) == provisioning::merge_entries(
            m.instances,
            doc,
        ).default,
{
    let st = provisioning::merge_entries(m.instances, doc);
    let kept = st.instances.filter(provisioning::stays(doc));
    assert(provisioning::merged(m, doc).instances[k] == provisioning::yielded(
        kept[k],
        st.default->0,
    ));
}

/// The default mark of a provisioned entry: on the entry itself when it is
/// the document's default, and on no locked entry otherwise.
pub open spec fn marked(i: InstanceModel, default: Option<Seq<char>>) -> InstanceModel {
    match default {
        Some(d) => provisioning::yielded(i, d),
        None => i,
    }
}

/// The default that a merge sets is that of an entry of the document, at a URL
/// that no entry of the user's own has.
proof fn lemma_default_is_provided(before: Seq<InstanceModel>, doc: Seq<EntryModel>, url: Seq<char>)
    requires
        distinct_entries(doc),
        provisioning::merge_entries(before, doc).default == Some(url),
    ensures
        entry(doc, url) matches Some(p) && p.default,
        lookup(before, url) matches Some(i) ==> i.locked,
    decreases doc.len(),
{
    if doc.len() > 0 {
        let head = doc.drop_last();
        let p = doc.last();
        lemma_head(doc);
        lemma_entries_at(before, head, p.url);
        lemma_entry(head, p.url);
        let st = provisioning::merge_entries(before, head);
        lemma_position(st.instances, p.url);
        if st.default == Some(url) {
            lemma_default_is_provided(before, head, url);
            lemma_entry(head, url);
        }
    }
}

/// After a merge that sets a default the store keeps one: the server at the
/// provisioned URL, which is the one that is opened at startup.
pub proof fn law_one_default_is_kept(m: StoreModel, doc: Seq<EntryModel>, url: Seq<char>)
    requires
        distinct_urls(m.instances),
        distinct_entries(doc),
        provisioning::merge_entries(m.instances, doc).default == Some(url),
    ensures
        ({
            let after = provisioning::merged(m, doc);
            let k = instances::position(after.instances, url);
            &&& k < after.instances.len()
            &&& forall|j: int|
                0 <= j < after.instances.len() ==> (#[trigger] after.instances[j]).default == (j
                    == k)
            &&& instances::startup_target(after) == Some(k)
        }),
{
    let after = provisioning::merged(m, doc);
    let s = after.instances;
    let k = instances::position(s, url);
    lemma_default_is_provided(m.instances, doc, url);
    law_merged_at(m, doc, url);
    law_merge_keeps_urls_distinct(m, doc);
    lemma_position(s, url);
    lemma_position(m.instances, url);
    lemma_entry(doc, url);
    assert forall|j: int| 0 <= j < s.len() implies (#[trigger] s[j]).default == (j == k) by {
        if s[j].default {
            law_provisioned_default_wins(m, doc, j);
            lemma_lookup(s, j);
        }
    }
    seqs::lemma_first(s, instances::by_default(), k);
}

/// What a merge leaves under each URL: an entry of the document that the user
/// does not own stands there with the document's name; a locked entry that the
/// document has no longer is gone; all else is as it was, but for a default
/// mark that gave way.
pub proof fn law_merged_at(m: StoreModel, doc: Seq<EntryModel>, url: Seq<char>)
    requires
        distinct_urls(m.instances),
        distinct_entries(doc),
    ensures
        lookup(provisioning::merged(m, doc).instances, url) == (match taken_over(
            lookup(m.instances, url),
            entry(doc, url),
        ) {
            Some(i) => if i.locked && entry(doc, url) is None {
                None
            } else {
                Some(marked(i, provisioning::merge_entries(m.instances, doc).default))
            },
            None => None,
        }),
{
    let st = provisioning::merge_entries(m.instances, doc);
    let keep = provisioning::stays(doc);
    lemma_entries_keep(m.instances, doc);
    lemma_entries_at(m.instances, doc, url);
    lemma_entry(doc, url);
    lemma_position(st.instances, url);
    lemma_lookup_filter(st.instances, keep, url);
    if st.default is Some {
        lemma_lookup_default(st.instances.filter(keep), st.default->0, url);
    }
}

/// An entry of the document at a URL that the store does not have is added: it
/// is locked, has the name that the document gives it, and comes without a
/// probe and without settings.
pub proof fn law_new_entry_is_added_locked(m: StoreModel, doc: Seq<EntryModel>, j: int)
    requires
        distinct_urls(m.instances),
        distinct_entries(doc),
        0 <= j < doc.len(),
        lookup(m.instances, doc[j].url) is None,
    ensures
        ({
            let i = lookup(provisioning::merged(m, doc).instances, doc[j].url)->0;
            &&& lookup(provisioning::merged(m, doc).instances, doc[j].url) is Some
            &&& i.name == doc[j].name
            &&& i.url == doc[j].url
            &&& i.locked
            &&& i.probe is None
            &&& i.kiosk_allowed is None
            &&& i.allow_insecure_tls is None
            &&& i.default ==> doc[j].default
            &&& one_default(doc) ==> i.default == doc[j].default
        }),
{
    let p = doc[j];
    law_merged_at(m, doc, p.url);
    lemma_unique_entry(doc, j);
    if one_default(doc) {
        lemma_entries_default(m.instances, doc, p.url);
    }
}

/// A locked entry that the document has takes the name over from it, and keeps
/// its lock, its probe and its settings.
pub proof fn law_locked_entry_takes_the_name_over(m: StoreModel, doc: Seq<EntryModel>, j: int)
    requires
        distinct_urls(m.instances),
        distinct_entries(doc),
        0 <= j < doc.len(),
        lookup(m.instances, doc[j].url) is Some,
        lookup(m.instances, doc[j].url)->0.locked,
    ensures
        ({
            let old = lookup(m.instances, doc[j].url)->0;
            let new = lookup(provisioning::merged(m, doc).instances, doc[j].url)->0;
            &&& lookup(provisioning::merged(m, doc).instances, doc[j].url) is Some
            &&& new.name == doc[j].name
            &&& new.url == doc[j].url
            &&& new.locked
            &&& new.probe == old.probe
            &&& new.kiosk_allowed == old.kiosk_allowed
            &&& new.allow_insecure_tls == old.allow_insecure_tls
            &&& new.default ==> doc[j].default
            &&& one_default(doc) ==> new.default == doc[j].default
        }),
{
    let p = doc[j];
    law_merged_at(m, doc, p.url);
    lemma_unique_entry(doc, j);
    lemma_position(m.instances, p.url);
    if one_default(doc) {
        lemma_entries_default(m.instances, doc, p.url);
    }
}

/// A locked entry that the document has no longer is gone, and what neither
/// the store nor the document has does not come.
pub proof fn law_what_is_not_provided_goes(m: StoreModel, doc: Seq<EntryModel>, url: Seq<char>)
    requires
        distinct_urls(m.instances),
        distinct_entries(doc),
        forall|j: int| 0 <= j < doc.len() ==> (#[trigger] doc[j]).url != url,
        lookup(m.instances, url) matches Some(i) ==> i.locked,
    ensures
        lookup(provisioning::merged(m, doc).instances, url) is None,
{
    law_merged_at(m, doc, url);
    lemma_entry(doc, url);
}

/// An entry of the user's own keeps everything but, where the document sets a
/// default, its default mark; without a default in the document it keeps that
/// too.
pub proof fn law_own_entry_keeps_all_but_the_mark(
    m: StoreModel,
    doc: Seq<EntryModel>,
    url: Seq<char>,
)
    requires
        distinct_urls(m.instances),
        distinct_entries(doc),
        lookup(m.instances, url) is Some,
        !lookup(m.instances, url)->0.locked,
    ensures
        ({
            let old = lookup(m.instances, url)->0;
            let new = lookup(provisioning::merged(m, doc).instances, url)->0;
            &&& lookup(provisioning::merged(m, doc).instances, url) is Some
            &&& new.name == old.name
            &&& new.url == old.url
            &&& !new.locked
            &&& new.probe == old.probe
            &&& new.kiosk_allowed == old.kiosk_allowed
            &&& new.allow_insecure_tls == old.allow_insecure_tls
            &&& new.default ==> old.default
            &&& (forall|j: int| 0 <= j < doc.len() ==> !(#[trigger] doc[j]).default) ==> new
                == old
        }),
{
    let default = provisioning::merge_entries(m.instances, doc).default;
    law_merged_at(m, doc, url);
    lemma_entry(doc, url);
    lemma_position(m.instances, url);
    if default is Some {
        lemma_default_is_provided(m.instances, doc, default->0);
        lemma_entry(doc, default->0);
        let p = entry(doc, default->0)->0;
        let j = choose|j: int| 0 <= j < doc.len() && doc[j] == p;
        assert(doc[j].default);
    }
}

/// The default of a document, at a URL that no entry of the user's own has, is
/// the only default afterwards, and the one that is opened at startup.
pub proof fn law_provisioned_default_is_opened(m: StoreModel, doc: Seq<EntryModel>, j: int)
    requires
        distinct_urls(m.instances),
        distinct_entries(doc),
        one_default(doc),
        0 <= j < doc.len(),
        doc[j].default,
        lookup(m.instances, doc[j].url) matches Some(i) ==> i.locked,
    ensures
        ({
            let after = provisioning::merged(m, doc);
            let t = instances::startup_target(after);
            &&& t is Some
            &&& 0 <= t->0 < after.instances.len()
            &&& after.instances[t->0].url == doc[j].url
            &&& forall|k: int|
                0 <= k < after.instances.len() ==> ((#[trigger] after.instances[k]).default
                    <==> after.instances[k].url == doc[j].url)
        }),
{
    let url = doc[j].url;
    lemma_unique_entry(doc, j);
    lemma_entries_default(m.instances, doc, url);
    law_one_default_is_kept(m, doc, url);
    law_merge_keeps_urls_distinct(m, doc);
    let after = provisioning::merged(m, doc);
    lemma_position(after.instances, url);
    assert forall|k: int| 0 <= k < after.instances.len() implies ((
    #[trigger] after.instances[k]).default <==> after.instances[k].url == url) by {
        if after.instances[k].url == url {
            lemma_lookup(after.instances, k);
        }
    }
}

/// The servers after a merge are those before it, and those that were added,
/// without those that were removed.
pub proof fn law_merge_counts_servers(m: StoreModel, doc: Seq<EntryModel>)
    ensures
        provisioning::merged(m, doc).instances.len() == m.instances.len()
            + provisioning::merge_added(m, doc) - provisioning::merge_removed(m, doc),
        provisioning::merged(m, doc).provisioned_hash == m.provisioned_hash,
{
    lemma_entries_count(m.instances, doc);
}

/// A default mark that gives way to the provisioned default counts as updated,
/// and so does nothing else beside what the entries changed.
pub proof fn law_marks_that_give_way_are_counted(
    m: StoreModel,
    doc: Seq<EntryModel>,
    s: Seq<InstanceModel>,
    i: InstanceModel,
    url: Seq<char>,
)
    ensures
        ({
            let st = provisioning::merge_entries(m.instances, doc);
            let kept = st.instances.filter(provisioning::stays(doc));
            &&& st.default is None ==> provisioning::merge_updated(m, doc) == st.updated
            &&& st.default matches Some(d) ==> provisioning::merge_updated(m, doc) == st.updated
                + kept.filter(provisioning::gives_way(d)).len()
        }),
        Seq::<InstanceModel>::empty().filter(provisioning::gives_way(url)).len() == 0,
        s.push(i).filter(provisioning::gives_way(url)).len() == s.filter(
            provisioning::gives_way(url),
        ).len() + (if i.default && i.url != url {
            1int
        } else {
            0
        }),
{
    seqs::lemma_filter_push(s, i, provisioning::gives_way(url));
    seqs::lemma_filter_from(Seq::<InstanceModel>::empty(), provisioning::gives_way(url));
}

/// What was added to the list was counted.
proof fn lemma_entries_count(before: Seq<InstanceModel>, doc: Seq<EntryModel>)
    ensures
        provisioning::merge_entries(before, doc).instances.len() == before.len()
            + provisioning::merge_entries(before, doc).added,
    decreases doc.len(),
{
    if doc.len() > 0 {
        lemma_entries_count(before, doc.drop_last());
    }
}

/// One more entry of a document is counted as added exactly where neither the
/// store nor the document before it has its URL; where a locked entry has it,
/// its name and its mark count as updated where they change; and an entry of
/// the user's own counts for nothing.
pub proof fn law_one_more_entry_is_counted(
    before: Seq<InstanceModel>,
    doc: Seq<EntryModel>,
    p: EntryModel,
)
    ensures
        ({
            let st = provisioning::merge_entries(before, doc);
            let after = provisioning::merge_entries(before, doc.push(p));
            let there = lookup(st.instances, p.url);
            &&& there is None <==> !instances::has_url(before, p.url) && !provisioning::provides(
                doc,
                p.url,
            )
            &&& there is None ==> after.added == st.added + 1 && after.updated == st.updated
            &&& there is Some ==> after.added == st.added
            &&& there matches Some(i) ==> (!i.locked ==> after == st)
            &&& there matches Some(i) ==> (i.locked ==> after.updated - st.updated == (if i.name
                != p.name {
                1int
            } else {
                0
            }) + (if i.default != p.default {
                1int
            } else {
                0
            }))
            &&& after.instances.len() == st.instances.len() + after.added - st.added
        }),
{
    assert(doc.push(p).drop_last() =~= doc);
    lemma_entries_present(before, doc, p.url);
}

/// Merging entries leaves every server in its place, with its address, its
/// lock, its probe and its settings: new ones come after them.
pub proof fn law_new_entries_come_last(before: Seq<InstanceModel>, doc: Seq<EntryModel>, k: int)
    requires
        0 <= k < before.len(),
    ensures
        ({
            let after = provisioning::merge_entries(before, doc).instances;
            &&& before.len() <= after.len()
            &&& after[k].url == before[k].url
            &&& after[k].locked == before[k].locked
            &&& after[k].probe == before[k].probe
            &&& after[k].kiosk_allowed == before[k].kiosk_allowed
            &&& after[k].allow_insecure_tls == before[k].allow_insecure_tls
            &&& !before[k].locked ==> after[k] == before[k]
        }),
    decreases doc.len(),
{
    if doc.len() > 0 {
        law_new_entries_come_last(before, doc.drop_last(), k);
    }
}

/// A merge forgets the last used server only where it is gone: it stays the
/// last used one as long as the store has it, and a server that the merge
/// removed is not the last used one afterwards.
pub proof fn law_last_used_is_forgotten_when_gone(m: StoreModel, doc: Seq<EntryModel>)
    ensures
        ({
            let after = provisioning::merged(m, doc);
            &&& m.last_used is None ==> after.last_used is None
            &&& after.last_used is Some ==> after.last_used == m.last_used
            &&& m.last_used matches Some(u) ==> (instances::has_url(after.instances, u)
                ==> after.last_used == m.last_used)
            &&& m.last_used matches Some(u) ==> (instances::has_url(m.instances, u)
                && !instances::has_url(after.instances, u) ==> after.last_used is None)
        }),
{
    let st = provisioning::merge_entries(m.instances, doc);
    let keep = provisioning::stays(doc);
    let kept = st.instances.filter(keep);
    if m.last_used is Some {
        let u = m.last_used->0;
        if st.default is Some {
            lemma_lookup_default(kept, st.default->0, u);
        }
        lemma_entries_present(m.instances, doc, u);
        seqs::lemma_filter_from(st.instances, keep);
        if kept.len() == st.instances.len() {
            lemma_filter_whole(st.instances, keep);
        }
    }
}

/// A document is applied exactly where its hash is not the one that the store
/// holds, and its hash is held from then on; what else changes is the merge.
pub proof fn law_changed_document_is_applied(m: StoreModel, doc: Seq<EntryModel>, hash: Seq<char>)
    ensures
        provisioning::needs_sync(m, hash) <==> m.provisioned_hash is None
            || m.provisioned_hash->0 != hash,
        provisioning::synced(m, doc, hash).provisioned_hash == Some(hash),
        provisioning::synced(m, doc, hash).instances == provisioning::merged(m, doc).instances,
        provisioning::synced(m, doc, hash).last_used == provisioning::merged(m, doc).last_used,
{
}

/// The store has what the entry asks for already.
spec fn settled(s: Seq<InstanceModel>, p: EntryModel) -> bool {
    lookup(s, p.url) matches Some(i) && (i.locked ==> i.name == p.name && i.default == p.default)
}

/// Merging entries that the store has already changes nothing.
proof fn lemma_entries_settled(s: Seq<InstanceModel>, doc: Seq<EntryModel>)
    requires
        forall|j: int| 0 <= j < doc.len() ==> settled(s, #[trigger] doc[j]),
    ensures
        provisioning::merge_entries(s, doc).instances == s,
        provisioning::merge_entries(s, doc).added == 0,
        provisioning::merge_entries(s, doc).updated == 0,
        provisioning::merge_entries(s, doc).default matches Some(d) ==> exists|j: int|
            0 <= j < doc.len() && (#[trigger] doc[j]).default && doc[j].url == d && lookup(
                s,
                d,
            )->0.locked,
    decreases doc.len(),
{
    if doc.len() > 0 {
        let head = doc.drop_last();
        assert forall|j: int| 0 <= j < head.len() implies settled(s, #[trigger] head[j]) by {
            assert(settled(s, doc[j]));
        }
        lemma_entries_settled(s, head);
        let p = doc.last();
        assert(doc[doc.len() - 1] == p);
        assert(settled(s, p));
        let st = provisioning::merge_entries(s, head);
        let k = instances::position(s, p.url);
        assert(s[k].locked ==> s.update(
            k,
            InstanceModel { name: p.name, default: p.default, ..s[k] },
        ) =~= s);
        if st.default is Some {
            let d = st.default->0;
            let j = choose|j: int|
                0 <= j < head.len() && (#[trigger] head[j]).default && head[j].url == d;
            assert(doc[j] == head[j]);
        }
    }
}

/// Merging a document a second time changes nothing and counts nothing, where
/// the store and the document name each URL once and the document has at most
/// one default.
pub proof fn law_merge_is_idempotent(m: StoreModel, doc: Seq<EntryModel>)
    requires
        distinct_urls(m.instances),
        distinct_entries(doc),
        one_default(doc),
    ensures
        provisioning::merged(provisioning::merged(m, doc), doc) == provisioning::merged(m, doc),
        provisioning::merge_added(provisioning::merged(m, doc), doc) == 0,
        provisioning::merge_updated(provisioning::merged(m, doc), doc) == 0,
        provisioning::merge_removed(provisioning::merged(m, doc), doc) == 0,
{
    let once = provisioning::merged(m, doc);
    let s = once.instances;
    let first = provisioning::merge_entries(m.instances, doc);
    law_merge_keeps_urls_distinct(m, doc);
    assert forall|j: int| 0 <= j < doc.len() implies settled(s, #[trigger] doc[j]) by {
        let p = doc[j];
        law_merged_at(m, doc, p.url);
        lemma_unique_entry(doc, j);
        lemma_entries_default(m.instances, doc, p.url);
        lemma_position(m.instances, p.url);
    }
    lemma_entries_settled(s, doc);
    let second = provisioning::merge_entries(s, doc);
    assert forall|k: int| 0 <= k < s.len() implies provisioning::stays(doc)(#[trigger] s[k]) by {
        if s[k].locked {
            law_locked_are_provided(m, doc, k);
        }
    }
    seqs::lemma_filter_all(s, provisioning::stays(doc));
    if second.default is Some {
        let d = second.default->0;
        let j = choose|j: int|
            0 <= j < doc.len() && (#[trigger] doc[j]).default && doc[j].url == d;
        lemma_unique_entry(doc, j);
        lemma_entries_default(m.instances, doc, d);
        law_merged_at(m, doc, d);
        assert(first.default == Some(d));
        assert forall|k: int| 0 <= k < s.len() implies !provisioning::gives_way(d)(
            #[trigger] s[k],
        ) by {
            if s[k].default {
                law_provisioned_default_wins(m, doc, k);
            }
        }
        seqs::lemma_filter_none(s, provisioning::gives_way(d));
        assert(provisioning::only_default(s, d) =~= s) by {
            assert forall|k: int| 0 <= k < s.len() implies provisioning::yielded(
                #[trigger] s[k],
                d,
            ) == s[k] by {
                assert(!provisioning::gives_way(d)(s[k]));
            }
        }
    }
}

/// In a document with distinct URLs each entry is the one under its URL.
proof fn lemma_unique_entry(doc: Seq<EntryModel>, j: int)
    requires
        distinct_entries(doc),
        0 <= j < doc.len(),
    ensures
        entry(doc, doc[j].url) == Some(doc[j]),
{
    let url = doc[j].url;
    assert(provisioning::provides(doc, url));
    lemma_entry(doc, url);
    let p = entry(doc, url)->0;
    let i = choose|i: int| 0 <= i < doc.len() && doc[i] == p;
    assert(doc[i].url == doc[j].url);
}

/// A merge that counts nothing changes nothing: the store stays as it is.
pub proof fn law_nothing_counted_nothing_changed(m: StoreModel, doc: Seq<EntryModel>)
    requires
        provisioning::merge_added(m, doc) == 0,
        provisioning::merge_updated(m, doc) == 0,
        provisioning::merge_removed(m, doc) == 0,
    ensures
        provisioning::merged(m, doc) == m,
{
    let st = provisioning::merge_entries(m.instances, doc);
    let keep = provisioning::stays(doc);
    lemma_entries_uncounted(m.instances, doc);
    lemma_filter_whole(st.instances, keep);
    if st.default is Some {
        let d = st.default->0;
        let s = m.instances;
        assert(provisioning::only_default(s, d) =~= s) by {
            assert forall|k: int| 0 <= k < s.len() implies provisioning::yielded(
                #[trigger] s[k],
                d,
            ) == s[k] by {
                if provisioning::gives_way(d)(s[k]) {
                    seqs::lemma_filter_keeps(s, provisioning::gives_way(d), k);
                }
            }
        }
    }
}

/// Entries that count nothing change nothing.
proof fn lemma_entries_uncounted(before: Seq<InstanceModel>, doc: Seq<EntryModel>)
    requires
        provisioning::merge_entries(before, doc).added == 0,
        provisioning::merge_entries(before, doc).updated == 0,
    ensures
        provisioning::merge_entries(before, doc).instances == before,
    decreases doc.len(),
{
    if doc.len() > 0 {
        lemma_entries_uncounted(before, doc.drop_last());
        let st = provisioning::merge_entries(before, doc.drop_last());
        let p = doc.last();
        let k = instances::position(before, p.url);
        if k < before.len() && before[k].locked {
            assert(before.update(
                k,
                InstanceModel { name: p.name, default: p.default, ..before[k] },
            ) =~= before);
        }
    }
}

/// A filter that drops nothing keeps the sequence.
proof fn lemma_filter_whole(s: Seq<InstanceModel>, p: spec_fn(InstanceModel) -> bool)
    requires
        s.filter(p).len() == s.len(),
    ensures
        s.filter(p) == s,
    decreases s.len(),
{
    reveal(Seq::filter);
    if s.len() > 0 {
        let t = s.drop_last();
        seqs::lemma_filter_from(t, p);
        lemma_filter_whole(t, p);
        assert(t.push(s.last()) =~= s);
    } else {
        assert(s.filter(p) =~= s);
    }
}

/// A document that was applied is not applied again while its hash is the one
/// that the store holds.
pub proof fn law_applied_document_is_skipped(m: StoreModel, doc: Seq<EntryModel>, hash: Seq<char>)
    ensures
        !provisioning::needs_sync(provisioning::synced(m, doc, hash), hash),
{
}

} // verus!

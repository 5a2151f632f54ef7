//! Provisioning: servers that an administrator configures, and how they are
//! merged into the store.

use vstd::prelude::*;

use crate::instances;
use crate::instances::{Instance, InstanceModel, InstanceStore, StoreModel};
use crate::seqs;
use crate::text;

verus! {

broadcast use seqs::lemma_first_range;

/// One provisioned server.
#[derive(Debug)]
pub struct ProvisionedInstance {
    pub name: String,
    pub url: String,
    pub default: bool,
}

/// The servers of a provision document.
#[derive(Debug)]
pub struct ProvisionFile {
    pub instances: Vec<ProvisionedInstance>,
}

/// The provision document in effect, with the hash of its contents and where
/// it came from.
#[derive(Debug)]
pub struct EffectiveProvision {
    pub doc: ProvisionFile,
    pub hash: String,
    pub source: String,
}

/// The model of [`ProvisionedInstance`].
#[verifier::ext_equal]
pub struct EntryModel {
    pub name: Seq<char>,
    pub url: Seq<char>,
    pub default: bool,
}

impl View for ProvisionedInstance {
    type V = EntryModel;

    open spec fn view(&self) -> EntryModel {
        EntryModel { name: self.name@, url: self.url@, default: self.default }
    }
}

impl View for ProvisionFile {
    type V = Seq<EntryModel>;

    open spec fn view(&self) -> Seq<EntryModel> {
        self.instances@.map_values(|p: ProvisionedInstance| p@)
    }
}

/// Outcome of one provision merge.
#[derive(Debug, PartialEq)]
pub struct ProvisionMerge {
    pub added: usize,
    pub updated: usize,
    pub removed: usize,
}

impl ProvisionMerge {
    /// Whether the merge changed anything.
    pub fn changed(&self) -> (r: bool)
        ensures
            r == (self.added > 0 || self.updated > 0 || self.removed > 0),
    {
        self.added > 0 || self.updated > 0 || self.removed > 0
    }
}

// ---------------------------------------------------------------------------
// The merge as a function
// ---------------------------------------------------------------------------

/// How far a merge has come: the servers, what was counted, and the URL of the
/// last provisioned default.
#[verifier::ext_equal]
pub struct MergeState {
    pub instances: Seq<InstanceModel>,
    pub added: nat,
    pub updated: nat,
    pub default: Option<Seq<char>>,
}

/// The locked server that a new provisioned entry becomes.
pub open spec fn provisioned(p: EntryModel) -> InstanceModel {
    InstanceModel {
        name: p.name,
        url: p.url,
        default: p.default,
        kiosk_allowed: None,
        allow_insecure_tls: None,
        locked: true,
        probe: None,
    }
}

/// One provisioned entry: added when its URL is new, taken over in name and
/// default mark when a locked entry has its URL, ignored when the user's own
/// entry has it.
pub open spec fn merge_entry(st: MergeState, p: EntryModel) -> MergeState {
    let k = instances::position(st.instances, p.url);
    let default = if p.default {
        Some(p.url)
    } else {
        st.default
    };
    if k == st.instances.len() {
        MergeState {
            instances: st.instances.push(provisioned(p)),
            added: st.added + 1,
            default,
            ..st
        }
    } else if st.instances[k].locked {
        MergeState {
            instances: st.instances.update(
                k,
                InstanceModel { name: p.name, default: p.default, ..st.instances[k] },
            ),
            updated: st.updated + (if st.instances[k].name != p.name {
                1nat
            } else {
                0
            }) + (if st.instances[k].default != p.default {
                1nat
            } else {
                0
            }),
            default,
            ..st
        }
    } else {
        st
    }
}

/// All entries of a document, one after the other.
pub open spec fn merge_entries(before: Seq<InstanceModel>, doc: Seq<EntryModel>) -> MergeState
    decreases doc.len(),
{
    if doc.len() == 0 {
        MergeState { instances: before, added: 0, updated: 0, default: None }
    } else {
        merge_entry(merge_entries(before, doc.drop_last()), doc.last())
    }
}

/// Whether the document has an entry with the URL.
pub open spec fn provides(doc: Seq<EntryModel>, url: Seq<char>) -> bool {
    exists|j: int| 0 <= j < doc.len() && (#[trigger] doc[j]).url == url
}

/// Staying in the store: the user's own entries, and those that the document
/// still has.
pub open spec fn stays(doc: Seq<EntryModel>) -> spec_fn(InstanceModel) -> bool {
    |i: InstanceModel| !i.locked || provides(doc, i.url)
}

/// A default mark that gives way to the default at `url`.
pub open spec fn gives_way(url: Seq<char>) -> spec_fn(InstanceModel) -> bool {
    |i: InstanceModel| i.url != url && i.default
}

/// The server without a default mark unless it is the one at `url`.
pub open spec fn yielded(i: InstanceModel, url: Seq<char>) -> InstanceModel {
    if i.url != url {
        InstanceModel { default: false, ..i }
    } else {
        i
    }
}

/// The servers with the default mark at most at `url`.
pub open spec fn only_default(s: Seq<InstanceModel>, url: Seq<char>) -> Seq<InstanceModel> {
    s.map_values(|i: InstanceModel| yielded(i, url))
}

/// The store after the merge of a document.
pub open spec fn merged(m: StoreModel, doc: Seq<EntryModel>) -> StoreModel {
    let st = merge_entries(m.instances, doc);
    let kept = st.instances.filter(stays(doc));
    StoreModel {
        instances: match st.default {
            Some(url) => only_default(kept, url),
            None => kept,
        },
        last_used: match m.last_used {
            Some(u) => if kept.len() < st.instances.len() && !instances::has_url(kept, u) {
                None
            } else {
                m.last_used
            },
            None => None,
        },
        provisioned_hash: m.provisioned_hash,
    }
}

/// The number of entries that the merge adds.
pub open spec fn merge_added(m: StoreModel, doc: Seq<EntryModel>) -> nat {
    merge_entries(m.instances, doc).added
}

/// The number of fields that the merge changes.
pub open spec fn merge_updated(m: StoreModel, doc: Seq<EntryModel>) -> nat {
    let st = merge_entries(m.instances, doc);
    let kept = st.instances.filter(stays(doc));
    st.updated + (match st.default {
        Some(url) => kept.filter(gives_way(url)).len(),
        None => 0,
    })
}

/// The number of entries that the merge removes.
pub open spec fn merge_removed(m: StoreModel, doc: Seq<EntryModel>) -> int {
    let st = merge_entries(m.instances, doc);
    st.instances.len() - st.instances.filter(stays(doc)).len()
}

/// How large a merge can grow.
proof fn lemma_merge_bounds(before: Seq<InstanceModel>, doc: Seq<EntryModel>)
    ensures
        merge_entries(before, doc).instances.len() == before.len() + merge_entries(
            before,
            doc,
        ).added,
        merge_entries(before, doc).added <= doc.len(),
        merge_entries(before, doc).updated <= 2 * doc.len(),
    decreases doc.len(),
{
    if doc.len() > 0 {
        lemma_merge_bounds(before, doc.drop_last());
    }
}

impl InstanceStore {
    /// Merges the entries of the document, one after the other.
    fn merge_phase(&mut self, provision: &ProvisionFile) -> (r: (usize, usize, Option<String>))
        requires
            old(self)@.instances.len() + 3 * provision@.len() <= usize::MAX,
        ensures
            final(self).path == old(self).path,
            final(self)@ == (StoreModel {
                instances: merge_entries(old(self)@.instances, provision@).instances,
                ..old(self)@
            }),
            r.0 == merge_entries(old(self)@.instances, provision@).added,
            r.1 == merge_entries(old(self)@.instances, provision@).updated,
            text::opt_text(r.2) == merge_entries(old(self)@.instances, provision@).default,
    {
        let ghost before = self@;
        let ghost doc = provision@;
        let mut added: usize = 0;
        let mut updated: usize = 0;
        let mut default: Option<String> = None;
        let n: usize = provision.instances.len();
        let mut i: usize = 0;
        proof {
            assert(doc.take(0) =~= Seq::<EntryModel>::empty());
        }
        while i < n
            invariant
                n == provision.instances@.len(),
                doc == provision@,
                i <= n,
                before.instances.len() + 3 * doc.len() <= usize::MAX,
                self.path == old(self).path,
                self@.last_used == before.last_used,
                self@.provisioned_hash == before.provisioned_hash,
                self@.instances == merge_entries(before.instances, doc.take(i as int)).instances,
                added == merge_entries(before.instances, doc.take(i as int)).added,
                updated == merge_entries(before.instances, doc.take(i as int)).updated,
                text::opt_text(default) == merge_entries(
                    before.instances,
                    doc.take(i as int),
                ).default,
            decreases n - i,
        {
            let p = &provision.instances[i];
            let ghost st = merge_entries(before.instances, doc.take(i as int));
            let ghost after = merge_entries(before.instances, doc.take(i + 1));
            proof {
                assert(doc.take(i + 1).drop_last() =~= doc.take(i as int));
                assert(doc.take(i + 1).last() == p@);
                lemma_merge_bounds(before.instances, doc.take(i as int));
            }
            match self.index_of(p.url.as_str()) {
                Some(k) => {
                    if self.file.instances[k].locked {
                        if self.file.instances[k].name != p.name {
                            updated = updated + 1;
                        }
                        if self.file.instances[k].default != p.default {
                            updated = updated + 1;
                        }
                        self.file.instances[k].name = p.name.clone();
                        self.file.instances[k].default = p.default;
                        if p.default {
                            default = Some(p.url.clone());
                        }
                        proof {
                            assert(self@.instances =~= after.instances);
                        }
                    }
                },
                None => {
                    self.file.instances.push(
                        Instance {
                            name: p.name.clone(),
                            url: p.url.clone(),
                            default: p.default,
                            kiosk_allowed: None,
                            allow_insecure_tls: None,
                            locked: true,
                            probe: None,
                        },
                    );
                    added = added + 1;
                    if p.default {
                        default = Some(p.url.clone());
                    }
                    proof {
                        assert(self@.instances =~= after.instances);
                    }
                },
            }
            i = i + 1;
        }
        proof {
            assert(doc.take(n as int) =~= doc);
        }
        (added, updated, default)
    }
}

/// Whether the document has an entry with the URL.
fn is_provided(provision: &ProvisionFile, url: &str) -> (r: bool)
    ensures
        r == provides(provision@, url@),
{
    let ghost doc = provision@;
    let mut i: usize = 0;
    while i < provision.instances.len()
        invariant
            doc == provision@,
            i <= provision.instances@.len(),
            forall|j: int| 0 <= j < i ==> (#[trigger] doc[j]).url != url@,
        decreases provision.instances@.len() - i,
    {
        proof {
            assert(doc[i as int] == provision.instances@[i as int]@);
        }
        if text::same(provision.instances[i].url.as_str(), url) {
            return true;
        }
        i = i + 1;
    }
    false
}

impl InstanceStore {
    /// Removes the locked entries that the document no longer has.
    fn remove_phase(&mut self, provision: &ProvisionFile) -> (r: usize)
        ensures
            final(self).path == old(self).path,
            final(self)@ == (StoreModel {
                instances: old(self)@.instances.filter(stays(provision@)),
                ..old(self)@
            }),
            r == old(self)@.instances.len() - old(self)@.instances.filter(stays(provision@)).len(),
    {
        let ghost before = self@.instances;
        let ghost keep = stays(provision@);
        let ghost mut seen: int = 0;
        let n: usize = self.file.instances.len();
        let mut i: usize = 0;
        let mut removed: usize = 0;
        proof {
            assert(before.take(0) =~= Seq::<InstanceModel>::empty());
            reveal(Seq::filter);
            assert(before.take(0).filter(keep) + before.skip(0) =~= before);
        }
        while i < self.file.instances.len()
            invariant
                keep == stays(provision@),
                n == before.len(),
                0 <= seen <= n,
                i == before.take(seen).filter(keep).len(),
                removed == seen - i,
                self.path == old(self).path,
                self@.last_used == old(self)@.last_used,
                self@.provisioned_hash == old(self)@.provisioned_hash,
                self@.instances == before.take(seen).filter(keep) + before.skip(seen),
            decreases n - seen,
        {
            let ghost head = before.take(seen).filter(keep);
            let ghost mid = self@.instances;
            proof {
                assert(self@.instances[i as int] == before[seen]);
                assert(before.take(seen + 1) =~= before.take(seen).push(before[seen]));
                seqs::lemma_filter_push(before.take(seen), before[seen], keep);
            }
            if !self.file.instances[i].locked || is_provided(
                provision,
                self.file.instances[i].url.as_str(),
            ) {
                i = i + 1;
            } else {
                let _gone = self.file.instances.remove(i);
                removed = removed + 1;
                proof {
                    assert(self@.instances =~= mid.remove(i as int));
                }
            }
            proof {
                seen = seen + 1;
                assert(mid == head + before.skip(seen - 1));
                assert(self@.instances =~= before.take(seen).filter(keep) + before.skip(seen));
            }
        }
        proof {
            assert(before.take(n as int) =~= before);
            assert(before.filter(keep) + before.skip(n as int) =~= before.filter(keep));
        }
        removed
    }

    /// Leaves the default mark at most at `url`, and counts the marks that went.
    fn default_phase(&mut self, url: &str) -> (r: usize)
        ensures
            final(self).path == old(self).path,
            final(self)@ == (StoreModel {
                instances: only_default(old(self)@.instances, url@),
                ..old(self)@
            }),
            r == old(self)@.instances.filter(gives_way(url@)).len(),
            r <= old(self)@.instances.len(),
    {
        let ghost before = self@.instances;
        let ghost done = only_default(before, url@);
        let n: usize = self.file.instances.len();
        let mut i: usize = 0;
        let mut cleared: usize = 0;
        proof {
            assert(before.take(0) =~= Seq::<InstanceModel>::empty());
            reveal(Seq::filter);
            assert(done.take(0) + before.skip(0) =~= before);
        }
        while i < n
            invariant
                n == before.len(),
                n == self.file.instances@.len(),
                i <= n,
                done == only_default(before, url@),
                cleared == before.take(i as int).filter(gives_way(url@)).len(),
                cleared <= i,
                self.path == old(self).path,
                self@.last_used == old(self)@.last_used,
                self@.provisioned_hash == old(self)@.provisioned_hash,
                self@.instances == done.take(i as int) + before.skip(i as int),
            decreases n - i,
        {
            let ghost mid = self@.instances;
            proof {
                assert(mid[i as int] == before[i as int]);
                assert(before.take(i + 1) =~= before.take(i as int).push(before[i as int]));
                seqs::lemma_filter_push(
                    before.take(i as int),
                    before[i as int],
                    gives_way(url@),
                );
            }
            if !text::same(self.file.instances[i].url.as_str(), url)
                && self.file.instances[i].default {
                self.file.instances[i].default = false;
                cleared = cleared + 1;
            }
            proof {
                assert(done[i as int] == yielded(before[i as int], url@));
                assert(self@.instances =~= mid.update(i as int, done[i as int]));
            }
            i = i + 1;
            proof {
                assert(self@.instances =~= done.take(i as int) + before.skip(i as int));
            }
        }
        proof {
            assert(before.take(n as int) =~= before);
            assert(done.take(n as int) + before.skip(n as int) =~= done);
        }
        cleared
    }

    /// Merges a provision document into the store. Entries with a new URL are
    /// added, locked; locked entries take over name and default mark from
    /// the document; locked entries that the document no longer has are
    /// removed. The user's own entries stay, and a provisioned default takes
    /// the default mark from every other entry.
    pub fn apply_provisioned(&mut self, provision: &ProvisionFile) -> (r: ProvisionMerge)
        requires
            old(self)@.instances.len() + 3 * provision@.len() <= usize::MAX,
        ensures
            final(self).path == old(self).path,
            final(self)@ == merged(old(self)@, provision@),
            r.added == merge_added(old(self)@, provision@),
            r.updated == merge_updated(old(self)@, provision@),
            r.removed == merge_removed(old(self)@, provision@),
    {
        let ghost before = self@;
        let (added, in_place, default) = self.merge_phase(provision);
        let ghost st = merge_entries(before.instances, provision@);
        let ghost kept = st.instances.filter(stays(provision@));
        proof {
            lemma_merge_bounds(before.instances, provision@);
            seqs::lemma_filter_from(st.instances, stays(provision@));
        }
        let mut updated: usize = in_place;
        let removed: usize = self.remove_phase(provision);
        if removed > 0 {
            let gone: bool = match &self.file.last_used {
                Some(u) => self.index_of(u.as_str()).is_none(),
                None => false,
            };
            if gone {
                self.file.last_used = None;
            }
        }
        match default {
            Some(url) => {
                let cleared: usize = self.default_phase(url.as_str());
                updated = updated + cleared;
            },
            None => {},
        }
        ProvisionMerge { added, updated, removed }
    }
}

/// The store after the effective document was taken up: merged, and with the
/// hash of the document.
pub open spec fn synced(m: StoreModel, doc: Seq<EntryModel>, hash: Seq<char>) -> StoreModel {
    StoreModel { provisioned_hash: Some(hash), ..merged(m, doc) }
}

/// Whether a document with the hash has still to be applied.
pub open spec fn needs_sync(m: StoreModel, hash: Seq<char>) -> bool {
    m.provisioned_hash != Some(hash)
}

/// Merges the effective document when its hash is not the one that was last
/// applied. `None` says that there is nothing to do and nothing to save:
/// without a document, and with one that was applied already. Taking a
/// document away unlocks nothing.
pub fn sync_provisioned(
    store: &mut InstanceStore,
    effective: Option<&EffectiveProvision>,
) -> (r: Option<ProvisionMerge>)
    requires
        effective matches Some(e) ==> old(store)@.instances.len() + 3 * e.doc@.len() <= usize::MAX,
    ensures
        final(store).path == old(store).path,
        r is Some <==> effective is Some && needs_sync(old(store)@, effective->0.hash@),
        r is None ==> *final(store) == *old(store),
        r matches Some(merge) ==> {
            &&& final(store)@ == synced(old(store)@, effective->0.doc@, effective->0.hash@)
            &&& merge.added == merge_added(old(store)@, effective->0.doc@)
            &&& merge.updated == merge_updated(old(store)@, effective->0.doc@)
            &&& merge.removed == merge_removed(old(store)@, effective->0.doc@)
        },
{
    match effective {
        None => None,
        Some(e) => {
            if text::is_text(&store.file.provisioned_hash, e.hash.as_str()) {
                return None;
            }
            let merge = store.apply_provisioned(&e.doc);
            store.file.provisioned_hash = Some(e.hash.clone());
            Some(merge)
        },
    }
}

} // verus!

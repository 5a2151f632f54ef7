//! Instance store: the list of servers (name and URL), the last probe of each,
//! and the startup behavior.
//!
//! Every consumer gates on what the last probe reports, through
//! [`capability`]: without a probe there is no capability.

use std::path::PathBuf;

use vstd::prelude::*;

use crate::seqs;
use crate::text;
use crate::textmap::TextMap;

verus! {

broadcast use seqs::lemma_first_range;

// ---------------------------------------------------------------------------
// Data model
// ---------------------------------------------------------------------------

/// One configured server.
#[derive(Debug)]
pub struct Instance {
    pub name: String,
    pub url: String,
    pub default: bool,
    /// The kiosk preference of this server.
    pub kiosk_allowed: Option<bool>,
    /// The untrusted-TLS override for the probe: `Some(true)` accepts
    /// untrusted certificates for this server, `Some(false)` enforces
    /// validation, `None` follows the global toggle.
    pub allow_insecure_tls: Option<bool>,
    /// Provisioned entries are locked: the user cannot edit or remove them.
    pub locked: bool,
    /// The last probe, kept so that an unreachable server still shows its
    /// last known version and capabilities.
    pub probe: Option<CachedProbe>,
}

/// The kept result of a status request.
#[derive(Debug)]
pub struct CachedProbe {
    /// False when the last check could not reach the server. The version and
    /// capabilities below are the last known values in that case.
    pub ok: bool,
    pub version: String,
    pub capabilities: TextMap<bool>,
    pub latest_version: Option<String>,
    pub update_available: bool,
    /// True when the root page redirects to the setup page.
    pub needs_setup: bool,
    /// True when the server answered but rejected the stored credential.
    pub auth_failed: bool,
    pub checked_at: u64,
    /// The reason for a failed probe.
    pub error: Option<String>,
}

/// The persisted contents of the store.
#[derive(Debug)]
pub struct StoreFile {
    pub instances: Vec<Instance>,
    pub last_used: Option<String>,
    /// The hash of the last applied provision document. An unchanged hash
    /// skips the merge.
    pub provisioned_hash: Option<String>,
}

/// Why an operation on the store failed. The first two carry the text of the
/// failure.
#[derive(Debug)]
pub enum StoreError {
    Io(String),
    Json(String),
    NotFound(String),
    Duplicate(String),
    Invalid(String),
}

/// The loaded store: where it is kept, and its contents.
#[derive(Debug)]
pub struct InstanceStore {
    pub path: PathBuf,
    pub file: StoreFile,
}

/// What reading a persisted file gave: no file, a file that cannot be read,
/// one whose contents make no sense, or its contents.
#[derive(Debug)]
pub enum FileRead<T> {
    Missing,
    Unreadable,
    Corrupt,
    Contents(T),
}

/// The model of [`CachedProbe`].
#[verifier::ext_equal]
pub struct ProbeModel {
    pub ok: bool,
    pub version: Seq<char>,
    pub capabilities: Map<Seq<char>, bool>,
    pub latest_version: Option<Seq<char>>,
    pub update_available: bool,
    pub needs_setup: bool,
    pub auth_failed: bool,
    pub checked_at: u64,
    pub error: Option<Seq<char>>,
}

/// The model of [`Instance`].
#[verifier::ext_equal]
pub struct InstanceModel {
    pub name: Seq<char>,
    pub url: Seq<char>,
    pub default: bool,
    pub kiosk_allowed: Option<bool>,
    pub allow_insecure_tls: Option<bool>,
    pub locked: bool,
    pub probe: Option<ProbeModel>,
}

/// The model of [`StoreFile`] and of the store that holds it.
#[verifier::ext_equal]
pub struct StoreModel {
    pub instances: Seq<InstanceModel>,
    pub last_used: Option<Seq<char>>,
    pub provisioned_hash: Option<Seq<char>>,
}

impl View for CachedProbe {
    type V = ProbeModel;

    open spec fn view(&self) -> ProbeModel {
        ProbeModel {
            ok: self.ok,
            version: self.version@,
            capabilities: self.capabilities@,
            latest_version: text::opt_text(self.latest_version),
            update_available: self.update_available,
            needs_setup: self.needs_setup,
            auth_failed: self.auth_failed,
            checked_at: self.checked_at,
            error: text::opt_text(self.error),
        }
    }
}

/// The model of an optional probe.
pub open spec fn opt_probe(p: Option<CachedProbe>) -> Option<ProbeModel> {
    match p {
        Some(p) => Some(p@),
        None => None,
    }
}

impl View for Instance {
    type V = InstanceModel;

    open spec fn view(&self) -> InstanceModel {
        InstanceModel {
            name: self.name@,
            url: self.url@,
            default: self.default,
            kiosk_allowed: self.kiosk_allowed,
            allow_insecure_tls: self.allow_insecure_tls,
            locked: self.locked,
            probe: opt_probe(self.probe),
        }
    }
}

/// The models of a list of servers.
pub open spec fn models(v: Seq<Instance>) -> Seq<InstanceModel> {
    v.map_values(|i: Instance| i@)
}

impl View for StoreFile {
    type V = StoreModel;

    open spec fn view(&self) -> StoreModel {
        StoreModel {
            instances: models(self.instances@),
            last_used: text::opt_text(self.last_used),
            provisioned_hash: text::opt_text(self.provisioned_hash),
        }
    }
}

impl View for InstanceStore {
    type V = StoreModel;

    open spec fn view(&self) -> StoreModel {
        self.file@
    }
}

impl Clone for CachedProbe {
    fn clone(&self) -> (r: Self)
        ensures
            r@ == self@,
    {
        CachedProbe {
            ok: self.ok,
            version: self.version.clone(),
            capabilities: self.capabilities.clone(),
            latest_version: text::clone_opt(&self.latest_version),
            update_available: self.update_available,
            needs_setup: self.needs_setup,
            auth_failed: self.auth_failed,
            checked_at: self.checked_at,
            error: text::clone_opt(&self.error),
        }
    }
}

/// A copy of an optional probe.
pub fn clone_probe(p: &Option<CachedProbe>) -> (r: Option<CachedProbe>)
    ensures
        opt_probe(r) == opt_probe(*p),
{
    match p {
        Some(p) => Some(p.clone()),
        None => None,
    }
}

impl Clone for Instance {
    fn clone(&self) -> (r: Self)
        ensures
            r@ == self@,
    {
        Instance {
            name: self.name.clone(),
            url: self.url.clone(),
            default: self.default,
            kiosk_allowed: self.kiosk_allowed,
            allow_insecure_tls: self.allow_insecure_tls,
            locked: self.locked,
            probe: clone_probe(&self.probe),
        }
    }
}

/// A copy of a list of servers.
pub fn clone_all(v: &Vec<Instance>) -> (r: Vec<Instance>)
    ensures
        models(r@) == models(v@),
{
    let mut out: Vec<Instance> = Vec::new();
    let mut i: usize = 0;
    while i < v.len()
        invariant
            i <= v@.len(),
            out@.len() == i,
            forall|j: int| 0 <= j < i ==> (#[trigger] out@[j])@ == v@[j]@,
        decreases v@.len() - i,
    {
        out.push(v[i].clone());
        i = i + 1;
    }
    proof {
        assert(models(out@) =~= models(v@));
    }
    out
}

// ---------------------------------------------------------------------------
// The store
// ---------------------------------------------------------------------------

/// Having the given URL.
pub open spec fn by_url(url: Seq<char>) -> spec_fn(InstanceModel) -> bool {
    |i: InstanceModel| i.url == url
}

/// Being marked as the default.
pub open spec fn by_default() -> spec_fn(InstanceModel) -> bool {
    |i: InstanceModel| i.default
}

/// The position of the first server with the URL, or the number of servers.
pub open spec fn position(s: Seq<InstanceModel>, url: Seq<char>) -> int {
    seqs::first(s, by_url(url))
}

/// Whether some server has the URL.
pub open spec fn has_url(s: Seq<InstanceModel>, url: Seq<char>) -> bool {
    position(s, url) < s.len()
}

/// The server to open at startup: the default one, else the last used one,
/// else the first one.
pub open spec fn startup_target(m: StoreModel) -> Option<int> {
    let d = seqs::first(m.instances, by_default());
    if d < m.instances.len() {
        Some(d)
    } else if m.last_used is Some && has_url(m.instances, m.last_used->0) {
        Some(position(m.instances, m.last_used->0))
    } else if m.instances.len() > 0 {
        Some(0)
    } else {
        None
    }
}

/// Whether the last probe of the server with the URL reports the capability.
pub open spec fn capability_of(m: StoreModel, url: Seq<char>, key: Seq<char>) -> bool {
    &&& has_url(m.instances, url)
    &&& m.instances[position(m.instances, url)].probe matches Some(p) && p.capabilities.contains_key(
        key,
    ) && p.capabilities[key]
}

/// The message that refuses an edit of a provisioned entry.
pub const LOCKED_MESSAGE: &'static str = "This instance is locked by your administrator";

/// The store without the server at position `k`.
pub open spec fn without(m: StoreModel, k: int, url: Seq<char>) -> StoreModel {
    StoreModel {
        instances: m.instances.remove(k),
        last_used: if m.last_used == Some(url) {
            None
        } else {
            m.last_used
        },
        provisioned_hash: m.provisioned_hash,
    }
}

impl InstanceStore {
    /// A store without servers.
    pub fn empty(path: PathBuf) -> (r: Self)
        ensures
            r.path == path,
            r@.instances == Seq::<InstanceModel>::empty(),
            r@.last_used is None,
            r@.provisioned_hash is None,
    {
        let r = InstanceStore {
            path,
            file: StoreFile { instances: Vec::new(), last_used: None, provisioned_hash: None },
        };
        proof {
            assert(r@.instances =~= Seq::<InstanceModel>::empty());
        }
        r
    }

    /// The position of the server with the URL.
    pub fn index_of(&self, url: &str) -> (r: Option<usize>)
        ensures
            match r {
                Some(k) => k == position(self@.instances, url@) && k < self@.instances.len(),
                None => !has_url(self@.instances, url@),
            },
    {
        let ghost ms = self@.instances;
        let mut i: usize = 0;
        while i < self.file.instances.len()
            invariant
                ms == self@.instances,
                i <= self.file.instances@.len(),
                forall|j: int| 0 <= j < i ==> !by_url(url@)(#[trigger] ms[j]),
            decreases self.file.instances@.len() - i,
        {
            if text::same(self.file.instances[i].url.as_str(), url) {
                proof {
                    seqs::lemma_first(ms, by_url(url@), i as int);
                }
                return Some(i);
            }
            i = i + 1;
        }
        proof {
            seqs::lemma_first(ms, by_url(url@), i as int);
        }
        None
    }

    /// The server with the URL.
    pub fn find(&self, url: &str) -> (r: Option<&Instance>)
        ensures
            match r {
                Some(i) => has_url(self@.instances, url@) && *i
                    == self.file.instances@[position(self@.instances, url@)],
                None => !has_url(self@.instances, url@),
            },
    {
        match self.index_of(url) {
            Some(k) => Some(&self.file.instances[k]),
            None => None,
        }
    }

    /// The server to open at startup: the default one, else the last used
    /// one, else the first one.
    pub fn default_or_last(&self) -> (r: Option<&Instance>)
        ensures
            match r {
                Some(i) => startup_target(self@) is Some && *i
                    == self.file.instances@[startup_target(self@)->0],
                None => startup_target(self@) is None,
            },
    {
        let ghost ms = self@.instances;
        let mut i: usize = 0;
        while i < self.file.instances.len()
            invariant
                ms == self@.instances,
                i <= self.file.instances@.len(),
                forall|j: int| 0 <= j < i ==> !by_default()(#[trigger] ms[j]),
            decreases self.file.instances@.len() - i,
        {
            if self.file.instances[i].default {
                proof {
                    seqs::lemma_first(ms, by_default(), i as int);
                }
                return Some(&self.file.instances[i]);
            }
            i = i + 1;
        }
        proof {
            seqs::lemma_first(ms, by_default(), i as int);
        }
        match &self.file.last_used {
            Some(u) => match self.find(u.as_str()) {
                Some(inst) => {
                    return Some(inst);
                },
                None => {},
            },
            None => {},
        }
        if self.file.instances.len() > 0 {
            Some(&self.file.instances[0])
        } else {
            None
        }
    }

    /// Whether the last probe of the server reports the capability.
    pub fn capability(&self, url: &str, key: &str) -> (r: bool)
        ensures
            r == capability_of(self@, url@, key@),
    {
        match self.find(url) {
            Some(i) => match &i.probe {
                Some(p) => match p.capabilities.get(key) {
                    Some(b) => *b,
                    None => false,
                },
                None => false,
            },
            None => false,
        }
    }

    /// Notes that the server was opened.
    pub fn record_used(&mut self, url: &str)
        ensures
            final(self)@ == (StoreModel { last_used: Some(url@), ..old(self)@ }),
            final(self).path == old(self).path,
    {
        self.file.last_used = Some(url.to_string());
    }

    /// Removes a server, and forgets that it was the last used one. Locked
    /// entries are refused.
    pub fn remove(&mut self, url: &str) -> (r: Result<(), StoreError>)
        ensures
            final(self).path == old(self).path,
            match r {
                Ok(()) => {
                    &&& has_url(old(self)@.instances, url@)
                    &&& !old(self)@.instances[position(old(self)@.instances, url@)].locked
                    &&& final(self)@ == without(
                        old(self)@,
                        position(old(self)@.instances, url@),
                        url@,
                    )
                },
                Err(StoreError::NotFound(u)) => {
                    &&& !has_url(old(self)@.instances, url@)
                    &&& u@ == url@
                    &&& *final(self) == *old(self)
                },
                Err(StoreError::Invalid(m)) => {
                    &&& has_url(old(self)@.instances, url@)
                    &&& old(self)@.instances[position(old(self)@.instances, url@)].locked
                    &&& m@ == LOCKED_MESSAGE@
                    &&& *final(self) == *old(self)
                },
                Err(_) => false,
            },
    {
        let ghost before = self@;
        let k: usize = match self.index_of(url) {
            Some(k) => k,
            None => {
                return Err(StoreError::NotFound(url.to_string()));
            },
        };
        if self.file.instances[k].locked {
            return Err(StoreError::Invalid(LOCKED_MESSAGE.to_string()));
        }
        let _gone = self.file.instances.remove(k);
        proof {
            assert(self@.instances =~= before.instances.remove(k as int));
        }
        if text::is_text(&self.file.last_used, url) {
            self.file.last_used = None;
        }
        Ok(())
    }
}

/// The text of a failure.
pub open spec fn error_text(e: StoreError) -> Seq<char> {
    match e {
        StoreError::Io(m) => m@,
        StoreError::Json(m) => "invalid JSON: "@ + m@,
        StoreError::NotFound(u) => "no instance with URL "@ + u@,
        StoreError::Duplicate(u) => "an instance with URL "@ + u@ + " already exists"@,
        StoreError::Invalid(m) => m@,
    }
}

impl StoreError {
    /// The text that is shown for the failure.
    pub fn message(&self) -> (r: String)
        ensures
            r@ == error_text(*self),
    {
        match self {
            StoreError::Io(m) => m.clone(),
            StoreError::Json(m) => text::join2("invalid JSON: ", m.as_str()),
            StoreError::NotFound(u) => text::join2("no instance with URL ", u.as_str()),
            StoreError::Duplicate(u) => text::join3(
                "an instance with URL ",
                u.as_str(),
                " already exists",
            ),
            StoreError::Invalid(m) => m.clone(),
        }
    }
}

impl InstanceStore {
    /// The store after its file was read, and whether the file has to be
    /// moved aside first. A file that is missing, unreadable or corrupt never
    /// blocks the startup: the store is empty then, and only a corrupt file
    /// is backed up.
    pub fn load(path: PathBuf, read: FileRead<StoreFile>) -> (r: (Self, bool))
        ensures
            r.0.path == path,
            match read {
                FileRead::Contents(file) => r.0.file == file && !r.1,
                _ => r.0@ == (StoreModel {
                    instances: Seq::empty(),
                    last_used: None,
                    provisioned_hash: None,
                }) && r.1 == (read is Corrupt),
            },
    {
        match read {
            FileRead::Contents(file) => (InstanceStore { path, file }, false),
            FileRead::Corrupt => (InstanceStore::empty(path), true),
            _ => (InstanceStore::empty(path), false),
        }
    }
}

// ---------------------------------------------------------------------------
// Access to a store that may not be there
// ---------------------------------------------------------------------------

/// A copy of every configured server.
pub fn instances(store: Option<&InstanceStore>) -> (r: Vec<Instance>)
    ensures
        match store {
            Some(s) => models(r@) == s@.instances,
            None => r@.len() == 0,
        },
{
    match store {
        Some(s) => clone_all(&s.file.instances),
        None => Vec::new(),
    }
}

/// A copy of the server with the URL.
pub fn instance(store: Option<&InstanceStore>, instance_url: &str) -> (r: Option<Instance>)
    ensures
        match r {
            Some(i) => store is Some && has_url(store->0@.instances, instance_url@) && i@
                == store->0@.instances[position(store->0@.instances, instance_url@)],
            None => store is None || !has_url(store->0@.instances, instance_url@),
        },
{
    match store {
        Some(s) => match s.find(instance_url) {
            Some(i) => Some(i.clone()),
            None => None,
        },
        None => None,
    }
}

/// The last probe of the server with the URL.
pub open spec fn probe_of(m: StoreModel, url: Seq<char>) -> Option<ProbeModel> {
    if has_url(m.instances, url) {
        m.instances[position(m.instances, url)].probe
    } else {
        None
    }
}

/// The last probe of the server with the URL.
pub fn probe(store: Option<&InstanceStore>, instance_url: &str) -> (r: Option<CachedProbe>)
    ensures
        opt_probe(r) == (match store {
            Some(s) => probe_of(s@, instance_url@),
            None => None,
        }),
{
    match store {
        Some(s) => match s.find(instance_url) {
            Some(i) => clone_probe(&i.probe),
            None => None,
        },
        None => None,
    }
}

/// The version that a probe is worth showing: a failed one without a version
/// tells none.
pub open spec fn known_version(p: Option<ProbeModel>) -> Option<Seq<char>> {
    match p {
        Some(p) => if p.ok || p.version.len() > 0 {
            Some(p.version)
        } else {
            None
        },
        None => None,
    }
}

/// The last known version of the server with the URL.
pub fn last_known_version(store: Option<&InstanceStore>, instance_url: &str) -> (r: Option<String>)
    ensures
        text::opt_text(r) == (match store {
            Some(s) => known_version(probe_of(s@, instance_url@)),
            None => None,
        }),
{
    match probe(store, instance_url) {
        Some(p) => if p.ok || !p.version.as_str().is_empty() {
            Some(p.version)
        } else {
            None
        },
        None => None,
    }
}

/// Whether the last probe of the server reports the capability. False when
/// there is no store, the server is unknown, or no probe has succeeded.
pub fn capability(store: Option<&InstanceStore>, instance_url: &str, key: &str) -> (r: bool)
    ensures
        r == (store is Some && capability_of(store->0@, instance_url@, key@)),
{
    match store {
        Some(s) => s.capability(instance_url, key),
        None => false,
    }
}

/// The untrusted-TLS flag of a probe: the override when set, else the global
/// toggle.
pub fn effective_tls(override_flag: Option<bool>, global: bool) -> (r: bool)
    ensures
        r == (match override_flag {
            Some(b) => b,
            None => global,
        }),
{
    match override_flag {
        Some(b) => b,
        None => global,
    }
}

impl Instance {
    /// The untrusted-TLS flag of this server's probe.
    pub fn allow_insecure_tls_effective(&self, global: bool) -> (r: bool)
        ensures
            r == (match self.allow_insecure_tls {
                Some(b) => b,
                None => global,
            }),
    {
        effective_tls(self.allow_insecure_tls, global)
    }
}

} // verus!

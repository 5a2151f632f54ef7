//! The tokens that pairings brought: the registry, and the names under which
//! their secrets are kept in the keychain of the operating system.

use std::path::PathBuf;

use vstd::prelude::*;

use crate::instances::FileRead;
use crate::seqs;
use crate::text;
use crate::web;

verus! {

/// What stands between URL and token id in the name of a keychain entry.
pub const TOKEN_USER_SEP: &'static str = "/desktop-token/";

// ---------------------------------------------------------------------------
// Token registry
// ---------------------------------------------------------------------------

/// A token that a pairing brought. Its secret is in the keychain.
#[derive(Debug, PartialEq)]
pub struct RegisteredToken {
    pub instance_url: String,
    pub token_id: i64,
    pub token_name: String,
    pub device_name: String,
    pub created_at: u64,
}

/// The persisted contents of the registry.
#[derive(Debug)]
pub struct RegistryFile {
    pub tokens: Vec<RegisteredToken>,
}

/// The registry: where it is kept, and its contents.
#[derive(Debug)]
pub struct TokenRegistry {
    pub path: PathBuf,
    pub file: RegistryFile,
}

/// The model of [`RegisteredToken`].
#[verifier::ext_equal]
pub struct TokenModel {
    pub instance_url: Seq<char>,
    pub token_id: i64,
    pub token_name: Seq<char>,
    pub device_name: Seq<char>,
    pub created_at: u64,
}

impl View for RegisteredToken {
    type V = TokenModel;

    open spec fn view(&self) -> TokenModel {
        TokenModel {
            instance_url: self.instance_url@,
            token_id: self.token_id,
            token_name: self.token_name@,
            device_name: self.device_name@,
            created_at: self.created_at,
        }
    }
}

impl Clone for RegisteredToken {
    fn clone(&self) -> (r: Self)
        ensures
            r@ == self@,
    {
        RegisteredToken {
            instance_url: self.instance_url.clone(),
            token_id: self.token_id,
            token_name: self.token_name.clone(),
            device_name: self.device_name.clone(),
            created_at: self.created_at,
        }
    }
}

/// The models of a list of tokens.
pub open spec fn token_models(v: Seq<RegisteredToken>) -> Seq<TokenModel> {
    v.map_values(|t: RegisteredToken| t@)
}

impl View for TokenRegistry {
    type V = Seq<TokenModel>;

    open spec fn view(&self) -> Seq<TokenModel> {
        token_models(self.file.tokens@)
    }
}

/// The ids of tokens.
pub open spec fn ids(s: Seq<TokenModel>) -> Seq<i64> {
    s.map_values(|t: TokenModel| t.token_id)
}

/// Giving way to a token: being of the same server, with the same id or name.
pub open spec fn replaced_by(new: TokenModel) -> spec_fn(TokenModel) -> bool {
    |t: TokenModel|
        t.instance_url == new.instance_url && (t.token_id == new.token_id || t.token_name
            == new.token_name)
}

/// Staying beside a token.
pub open spec fn beside(new: TokenModel) -> spec_fn(TokenModel) -> bool {
    |t: TokenModel| !replaced_by(new)(t)
}

/// The tokens after one was registered.
pub open spec fn registered(s: Seq<TokenModel>, new: TokenModel) -> Seq<TokenModel> {
    s.filter(beside(new)).push(new)
}

/// Being another token than that of the server with the id.
pub open spec fn other_than(url: Seq<char>, id: i64) -> spec_fn(TokenModel) -> bool {
    |t: TokenModel| !(t.instance_url == url && t.token_id == id)
}

/// Being a token of the server.
pub open spec fn of_instance(url: Seq<char>) -> spec_fn(TokenModel) -> bool {
    |t: TokenModel| t.instance_url == url
}

/// Whether the server has a registered token with the id.
pub open spec fn has_token(s: Seq<TokenModel>, url: Seq<char>, id: i64) -> bool {
    exists|k: int|
        0 <= k < s.len() && (#[trigger] s[k]).instance_url == url && s[k].token_id == id
}

/// Whether the token at position `k` is the newest of the server, the last one
/// among equals.
pub open spec fn is_latest(s: Seq<TokenModel>, url: Seq<char>, k: int) -> bool {
    &&& 0 <= k < s.len()
    &&& s[k].instance_url == url
    &&& forall|j: int|
        0 <= j < s.len() && (#[trigger] s[j]).instance_url == url ==> s[j].created_at
            <= s[k].created_at
    &&& forall|j: int|
        k < j < s.len() && (#[trigger] s[j]).instance_url == url ==> s[j].created_at
            < s[k].created_at
}

/// A copy of a list of tokens.
pub fn clone_tokens(v: &Vec<RegisteredToken>) -> (r: Vec<RegisteredToken>)
    ensures
        token_models(r@) == token_models(v@),
{
    let mut out: Vec<RegisteredToken> = Vec::new();
    let mut i: usize = 0;
    while i < v.len()
        invariant
            i <= v@.len(),
            out@.len() == i,
            forall|j: int| 0 <= j < i ==> (#[trigger] out@[j])@ == v@[j]@,
        decreases v@.len() - i,
    {
        out.push(v[i].clone());
        i = i + 1;
    }
    proof {
        assert(token_models(out@) =~= token_models(v@));
    }
    out
}

impl TokenRegistry {
    /// The registry after its file was read, and whether the file has to be
    /// moved aside first: only a corrupt one has.
    pub fn load(path: PathBuf, read: FileRead<RegistryFile>) -> (r: (Self, bool))
        ensures
            r.0.path == path,
            match read {
                FileRead::Contents(file) => r.0.file == file && !r.1,
                _ => r.0@ == Seq::<TokenModel>::empty() && r.1 == (read is Corrupt),
            },
    {
        let corrupt: bool = match &read {
            FileRead::Corrupt => true,
            _ => false,
        };
        match read {
            FileRead::Contents(file) => (TokenRegistry { path, file }, false),
            _ => {
                let empty = TokenRegistry { path, file: RegistryFile { tokens: Vec::new() } };
                proof {
                    assert(empty@ =~= Seq::<TokenModel>::empty());
                }
                (empty, corrupt)
            },
        }
    }

    /// Registers a token in place of those that give way to it, and gives the
    /// ids of these.
    pub fn register(&mut self, token: RegisteredToken) -> (r: Vec<i64>)
        ensures
            final(self).path == old(self).path,
            final(self)@ == registered(old(self)@, token@),
            r@ == ids(old(self)@.filter(replaced_by(token@))),
    {
        let ghost before = self@;
        let ghost keep = beside(token@);
        let ghost drop = replaced_by(token@);
        let ghost mut seen: int = 0;
        let n: usize = self.file.tokens.len();
        let mut removed: Vec<i64> = Vec::new();
        let mut i: usize = 0;
        proof {
            assert(before.take(0) =~= Seq::<TokenModel>::empty());
            reveal(Seq::filter);
            assert(before.take(0).filter(keep) + before.skip(0) =~= before);
            assert(removed@ =~= ids(before.take(0).filter(drop)));
        }
        while i < self.file.tokens.len()
            invariant
                keep == beside(token@),
                drop == replaced_by(token@),
                n == before.len(),
                0 <= seen <= n,
                i == before.take(seen).filter(keep).len(),
                removed@ == ids(before.take(seen).filter(drop)),
                self.path == old(self).path,
                self@ == before.take(seen).filter(keep) + before.skip(seen),
            decreases n - seen,
        {
            let ghost head = before.take(seen).filter(keep);
            let ghost gone = before.take(seen).filter(drop);
            let ghost mid = self@;
            proof {
                assert(mid[i as int] == before[seen]);
                assert(before.take(seen + 1) =~= before.take(seen).push(before[seen]));
                seqs::lemma_filter_push(before.take(seen), before[seen], keep);
                seqs::lemma_filter_push(before.take(seen), before[seen], drop);
            }
            let t = &self.file.tokens[i];
            if t.instance_url == token.instance_url && (t.token_id == token.token_id
                || t.token_name == token.token_name) {
                removed.push(t.token_id);
                let _gone = self.file.tokens.remove(i);
                proof {
                    assert(self@ =~= mid.remove(i as int));
                    assert(ids(gone.push(before[seen])) =~= ids(gone).push(before[seen].token_id));
                }
            } else {
                i = i + 1;
            }
            proof {
                seen = seen + 1;
                assert(mid == head + before.skip(seen - 1));
                assert(self@ =~= before.take(seen).filter(keep) + before.skip(seen));
            }
        }
        proof {
            assert(before.take(n as int) =~= before);
            assert(before.filter(keep) + before.skip(n as int) =~= before.filter(keep));
        }
        let ghost kept = self@;
        self.file.tokens.push(token);
        proof {
            assert(self@ =~= kept.push(token@));
        }
        removed
    }

    /// Removes the token of the server with the id, and says whether there was
    /// one.
    pub fn remove(&mut self, instance_url: &str, token_id: i64) -> (r: bool)
        ensures
            final(self).path == old(self).path,
            final(self)@ == old(self)@.filter(other_than(instance_url@, token_id)),
            r == (final(self)@.len() != old(self)@.len()),
    {
        let ghost before = self@;
        let ghost keep = other_than(instance_url@, token_id);
        let ghost mut seen: int = 0;
        let n: usize = self.file.tokens.len();
        let mut i: usize = 0;
        proof {
            assert(before.take(0) =~= Seq::<TokenModel>::empty());
            reveal(Seq::filter);
            assert(before.take(0).filter(keep) + before.skip(0) =~= before);
        }
        while i < self.file.tokens.len()
            invariant
                keep == other_than(instance_url@, token_id),
                n == before.len(),
                0 <= seen <= n,
                i == before.take(seen).filter(keep).len(),
                self.path == old(self).path,
                self@ == before.take(seen).filter(keep) + before.skip(seen),
            decreases n - seen,
        {
            let ghost head = before.take(seen).filter(keep);
            let ghost mid = self@;
            proof {
                assert(mid[i as int] == before[seen]);
                assert(before.take(seen + 1) =~= before.take(seen).push(before[seen]));
                seqs::lemma_filter_push(before.take(seen), before[seen], keep);
            }
            let t = &self.file.tokens[i];
            if t.token_id == token_id && text::same(t.instance_url.as_str(), instance_url) {
                let _gone = self.file.tokens.remove(i);
                proof {
                    assert(self@ =~= mid.remove(i as int));
                }
            } else {
                i = i + 1;
            }
            proof {
                seen = seen + 1;
                assert(mid == head + before.skip(seen - 1));
                assert(self@ =~= before.take(seen).filter(keep) + before.skip(seen));
            }
        }
        proof {
            assert(before.take(n as int) =~= before);
            assert(before.filter(keep) + before.skip(n as int) =~= before.filter(keep));
        }
        self.file.tokens.len() != n
    }

    /// The tokens of the server.
    pub fn for_instance(&self, instance_url: &str) -> (r: Vec<RegisteredToken>)
        ensures
            token_models(r@) == self@.filter(of_instance(instance_url@)),
    {
        let ghost all = self@;
        let ghost p = of_instance(instance_url@);
        let mut out: Vec<RegisteredToken> = Vec::new();
        let mut i: usize = 0;
        proof {
            assert(all.take(0) =~= Seq::<TokenModel>::empty());
            reveal(Seq::filter);
            assert(token_models(out@) =~= all.take(0).filter(p));
        }
        while i < self.file.tokens.len()
            invariant
                all == self@,
                p == of_instance(instance_url@),
                i <= self.file.tokens@.len(),
                token_models(out@) == all.take(i as int).filter(p),
            decreases self.file.tokens@.len() - i,
        {
            let ghost before = out@;
            proof {
                assert(all.take(i + 1) =~= all.take(i as int).push(all[i as int]));
                seqs::lemma_filter_push(all.take(i as int), all[i as int], p);
            }
            if text::same(self.file.tokens[i].instance_url.as_str(), instance_url) {
                out.push(self.file.tokens[i].clone());
                proof {
                    assert(token_models(out@) =~= token_models(before).push(all[i as int]));
                }
            }
            i = i + 1;
        }
        proof {
            assert(all.take(i as int) =~= all);
        }
        out
    }

    /// The newest token of the server.
    pub fn latest(&self, instance_url: &str) -> (r: Option<&RegisteredToken>)
        ensures
            match r {
                Some(t) => exists|k: int| #[trigger]
                    is_latest(self@, instance_url@, k) && *t == self.file.tokens@[k],
                None => forall|k: int|
                    0 <= k < self@.len() ==> (#[trigger] self@[k]).instance_url != instance_url@,
            },
    {
        let ghost all = self@;
        let mut best: Option<usize> = None;
        let mut i: usize = 0;
        while i < self.file.tokens.len()
            invariant
                all == self@,
                i <= self.file.tokens@.len(),
                match best {
                    Some(k) => k < i && is_latest(all.take(i as int), instance_url@, k as int),
                    None => forall|k: int|
                        0 <= k < i ==> (#[trigger] all[k]).instance_url != instance_url@,
                },
            decreases self.file.tokens@.len() - i,
        {
            let ghost wider = all.take(i + 1);
            if text::same(self.file.tokens[i].instance_url.as_str(), instance_url) {
                let newer: bool = match best {
                    Some(k) => self.file.tokens[i].created_at >= self.file.tokens[k].created_at,
                    None => true,
                };
                let ghost prior = best;
                if newer {
                    best = Some(i);
                }
                proof {
                    let k = best->0 as int;
                    assert forall|j: int|
                        0 <= j < wider.len() && (#[trigger] wider[j]).instance_url
                            == instance_url@ implies wider[j].created_at <= wider[k].created_at by {
                        if j < i {
                            assert(all[j] == all.take(i as int)[j]);
                        }
                    }
                    assert forall|j: int|
                        k < j < wider.len() && (#[trigger] wider[j]).instance_url
                            == instance_url@ implies wider[j].created_at < wider[k].created_at by {
                        if j < i {
                            assert(all[j] == all.take(i as int)[j]);
                        }
                    }
                    assert(is_latest(wider, instance_url@, k));
                }
            } else {
                proof {
                    if best is Some {
                        let k = best->0 as int;
                        assert forall|j: int|
                            0 <= j < wider.len() && (#[trigger] wider[j]).instance_url
                                == instance_url@ implies wider[j].created_at <= wider[k].created_at
                        by {
                            assert(all[j] == all.take(i as int)[j]);
                        }
                        assert forall|j: int|
                            k < j < wider.len() && (#[trigger] wider[j]).instance_url
                                == instance_url@ implies wider[j].created_at < wider[k].created_at
                        by {
                            assert(all[j] == all.take(i as int)[j]);
                        }
                        assert(is_latest(wider, instance_url@, k));
                    }
                }
            }
            i = i + 1;
        }
        proof {
            assert(all.take(i as int) =~= all);
        }
        match best {
            Some(k) => {
                proof {
                    assert(is_latest(self@, instance_url@, k as int));
                }
                Some(&self.file.tokens[k])
            },
            None => None,
        }
    }

    /// Whether the server has a registered token with the id.
    pub fn has(&self, instance_url: &str, token_id: i64) -> (r: bool)
        ensures
            r == has_token(self@, instance_url@, token_id),
    {
        let ghost all = self@;
        let mut i: usize = 0;
        while i < self.file.tokens.len()
            invariant
                all == self@,
                i <= self.file.tokens@.len(),
                forall|k: int|
                    0 <= k < i ==> !((#[trigger] all[k]).instance_url == instance_url@
                        && all[k].token_id == token_id),
            decreases self.file.tokens@.len() - i,
        {
            let t = &self.file.tokens[i];
            proof {
                assert(all[i as int] == t@);
            }
            if t.token_id == token_id && text::same(t.instance_url.as_str(), instance_url) {
                return true;
            }
            i = i + 1;
        }
        false
    }
}

// ---------------------------------------------------------------------------
// Keychain entries
// ---------------------------------------------------------------------------

/// The name of the keychain entry of a token: that of the server, and the id,
/// which each confirming user gets anew.
pub open spec fn keyring_name(url: Seq<char>, token_id: i64) -> Seq<char> {
    text::trim_end(url, '/') + TOKEN_USER_SEP@ + text::decimal_int(token_id as int)
}

/// The name of the keychain entry of a token.
pub fn keyring_user(instance_url: &str, token_id: i64) -> (r: String)
    ensures
        r@ == keyring_name(instance_url@, token_id),
{
    let id = text::decimal_int_of(token_id);
    text::join3(text::trim_end_of(instance_url, '/'), TOKEN_USER_SEP, id.as_str())
}

/// The token that an approval brings.
pub open spec fn approved_token(
    url: Seq<char>,
    token_id: i64,
    token_name: Seq<char>,
    device_name: Seq<char>,
    now: u64,
) -> TokenModel {
    TokenModel {
        instance_url: text::trim_end(url, '/'),
        token_id,
        token_name,
        device_name,
        created_at: now,
    }
}

/// Being another id.
pub open spec fn id_other_than(id: i64) -> spec_fn(i64) -> bool {
    |i: i64| i != id
}

/// The names of the keychain entries that go when a token replaces others: not
/// that of the token itself.
pub open spec fn dropped_users(url: Seq<char>, removed: Seq<i64>, token_id: i64) -> Seq<Seq<char>> {
    removed.filter(id_other_than(token_id)).map_values(|id: i64| keyring_name(url, id))
}

/// The names of the keychain entries that go.
fn users_to_drop(instance_url: &str, removed: &Vec<i64>, token_id: i64) -> (r: Vec<String>)
    ensures
        text::texts(r@) == dropped_users(instance_url@, removed@, token_id),
{
    let ghost p = id_other_than(token_id);
    let ghost f = |id: i64| keyring_name(instance_url@, id);
    let mut out: Vec<String> = Vec::new();
    let mut i: usize = 0;
    proof {
        assert(removed@.take(0) =~= Seq::<i64>::empty());
        reveal(Seq::filter);
        assert(text::texts(out@) =~= removed@.take(0).filter(p).map_values(f));
    }
    while i < removed.len()
        invariant
            p == id_other_than(token_id),
            f == (|id: i64| keyring_name(instance_url@, id)),
            i <= removed@.len(),
            text::texts(out@) == removed@.take(i as int).filter(p).map_values(f),
        decreases removed@.len() - i,
    {
        let ghost before = out@;
        let ghost kept = removed@.take(i as int).filter(p);
        proof {
            assert(removed@.take(i + 1) =~= removed@.take(i as int).push(removed@[i as int]));
            seqs::lemma_filter_push(removed@.take(i as int), removed@[i as int], p);
        }
        if removed[i] != token_id {
            out.push(keyring_user(instance_url, removed[i]));
            proof {
                assert(text::texts(out@) =~= text::texts(before).push(f(removed@[i as int])));
                assert(kept.push(removed@[i as int]).map_values(f) =~= kept.map_values(f).push(
                    f(removed@[i as int]),
                ));
            }
        }
        i = i + 1;
    }
    proof {
        assert(removed@.take(i as int) =~= removed@);
    }
    out
}

impl TokenRegistry {
    /// Registers an approved token whose secret is in the keychain already, at
    /// the given time, and gives the keychain entries that go: those of the
    /// tokens that it replaces.
    pub fn persist_approval_at(
        &mut self,
        instance_url: &str,
        token_id: i64,
        token_name: &str,
        device_name: &str,
        now: u64,
    ) -> (r: Vec<String>)
        ensures
            final(self).path == old(self).path,
            ({
                let token = approved_token(
                    instance_url@,
                    token_id,
                    token_name@,
                    device_name@,
                    now,
                );
                &&& final(self)@ == registered(old(self)@, token)
                &&& text::texts(r@) == dropped_users(
                    instance_url@,
                    ids(old(self)@.filter(replaced_by(token))),
                    token_id,
                )
            }),
    {
        let removed = self.register(
            RegisteredToken {
                instance_url: text::trim_end_of(instance_url, '/').to_string(),
                token_id,
                token_name: token_name.to_string(),
                device_name: device_name.to_string(),
                created_at: now,
            },
        );
        users_to_drop(instance_url, &removed, token_id)
    }

    /// Registers an approved token whose secret is in the keychain already.
    pub fn persist_approval(
        &mut self,
        instance_url: &str,
        token_id: i64,
        token_name: &str,
        device_name: &str,
    ) -> (r: Vec<String>)
        ensures
            final(self).path == old(self).path,
            exists|now: u64|
                {
                    let token = approved_token(
                        instance_url@,
                        token_id,
                        token_name@,
                        device_name@,
                        now,
                    );
                    &&& #[trigger] web::clock_told_secs(now)
                    &&& final(self)@ == registered(old(self)@, token)
                    &&& text::texts(r@) == dropped_users(
                        instance_url@,
                        ids(old(self)@.filter(replaced_by(token))),
                        token_id,
                    )
                },
    {
        let now: u64 = web::now_secs();
        self.persist_approval_at(instance_url, token_id, token_name, device_name, now)
    }
}

} // verus!

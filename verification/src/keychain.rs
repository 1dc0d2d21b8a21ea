//! The secret store: bearer tokens held under keys derived from usernames
//! inside a fixed namespace. Its view is the map from key to secret, the
//! only state the resolution contracts need.

use vstd::prelude::*;

use crate::strings::{has_prefix, str_eq};
use vstd::string::StrSliceExecFns;

verus! {

/// The namespace every key of this store lives in.
pub open spec fn key_namespace() -> Seq<char> {
    "github:"@
}

/// The storage key for an account's secret: the username inside the fixed
/// namespace. Distinct usernames, including ones differing only in case,
/// give distinct keys.
pub open spec fn secret_key_of(username: Seq<char>) -> Seq<char> {
    key_namespace() + username
}

/// Keys are injective in the username.
pub proof fn lemma_secret_key_injective(u1: Seq<char>, u2: Seq<char>)
    requires
        u1 != u2,
    ensures
        secret_key_of(u1) != secret_key_of(u2),
{
    let k1 = secret_key_of(u1);
    let k2 = secret_key_of(u2);
    if k1 == k2 {
        let n = key_namespace().len() as int;
        assert(k1.subrange(n, k1.len() as int) =~= u1);
        assert(k2.subrange(n, k2.len() as int) =~= u2);
        assert(u1 == u2);
    }
}

/// Secrets of distinct usernames are isolated: their keys differ, so
/// storing one account's secret neither adds, removes nor changes what a
/// fetch for any other account returns.
pub proof fn lemma_secret_isolation(
    m: Map<Seq<char>, Seq<char>>,
    u1: Seq<char>,
    u2: Seq<char>,
    token: Seq<char>,
)
    requires
        u1 != u2,
    ensures
        secret_key_of(u1) != secret_key_of(u2),
        m.insert(secret_key_of(u1), token).contains_key(secret_key_of(u2)) == m.contains_key(
            secret_key_of(u2),
        ),
        m.contains_key(secret_key_of(u2)) ==> m.insert(secret_key_of(u1), token)[secret_key_of(
            u2,
        )] == m[secret_key_of(u2)],
{
    lemma_secret_key_injective(u1, u2);
}

/// Why a secret-store operation failed.
#[derive(Clone, Copy, Debug, PartialEq, Eq, Structural)]
pub enum KeychainError {
    AccessDenied,
    ItemNotFound,
}

impl KeychainError {
    /// A short description of the failure.
    pub fn message(&self) -> (r: String)
        ensures
            r@ == keychain_error_message(*self),
    {
        match self {
            KeychainError::AccessDenied => String::from_str("Keychain access denied"),
            KeychainError::ItemNotFound => String::from_str("Item not found"),
        }
    }
}

pub open spec fn keychain_error_message(e: KeychainError) -> Seq<char> {
    match e {
        KeychainError::AccessDenied => "Keychain access denied"@,
        KeychainError::ItemNotFound => "Item not found"@,
    }
}

/// One stored secret.
struct SecretEntry {
    key: String,
    value: String,
}

/// Mathematical image of a stored secret.
pub struct SecretEntryV {
    pub key: Seq<char>,
    pub value: Seq<char>,
}

impl View for SecretEntry {
    type V = SecretEntryV;

    closed spec fn view(&self) -> SecretEntryV {
        SecretEntryV { key: self.key@, value: self.value@ }
    }
}

impl DeepView for SecretEntry {
    type V = SecretEntryV;

    closed spec fn deep_view(&self) -> SecretEntryV {
        self.view()
    }
}

/// The map a sequence of entries denotes; a later entry for the same key
/// would win, though well-formed stores never hold two.
pub open spec fn entries_map(s: Seq<SecretEntryV>) -> Map<Seq<char>, Seq<char>>
    decreases s.len(),
{
    if s.len() == 0 {
        Map::empty()
    } else {
        entries_map(s.drop_last()).insert(s.last().key, s.last().value)
    }
}

/// The domain of `entries_map` is exactly the set of keys present.
pub proof fn lemma_entries_map_dom(s: Seq<SecretEntryV>)
    ensures
        forall|k: Seq<char>|
            entries_map(s).contains_key(k) <==> exists|i: int|
                0 <= i < s.len() && (#[trigger] s[i]).key == k,
    decreases s.len(),
{
    if s.len() != 0 {
        lemma_entries_map_dom(s.drop_last());
        assert(forall|i: int| 0 <= i < s.len() - 1 ==> s.drop_last()[i] == s[i]);
        assert forall|k: Seq<char>| entries_map(s).contains_key(k) implies exists|i: int|
            0 <= i < s.len() && (#[trigger] s[i]).key == k by {
            if k == s.last().key {
                assert(s[s.len() - 1].key == k);
            } else {
                assert(entries_map(s.drop_last()).contains_key(k));
                let w = choose|i: int|
                    0 <= i < s.drop_last().len() && (#[trigger] s.drop_last()[i]).key == k;
                assert(s[w].key == k);
            }
        }
        assert forall|k: Seq<char>|
            (exists|i: int| 0 <= i < s.len() && (#[trigger] s[i]).key == k) implies entries_map(
            s,
        ).contains_key(k) by {
            let w = choose|i: int| 0 <= i < s.len() && (#[trigger] s[i]).key == k;
            if w < s.len() - 1 {
                assert(s.drop_last()[w].key == k);
                assert(entries_map(s.drop_last()).contains_key(k));
            }
        }
    }
}

/// With pairwise-distinct keys, the entry at any index gives the map's
/// value at its key.
pub proof fn lemma_entries_map_at(s: Seq<SecretEntryV>, i: int)
    requires
        forall|x: int, y: int| 0 <= x < y < s.len() ==> (#[trigger] s[x]).key != (#[trigger] s[y]).key,
        0 <= i < s.len(),
    ensures
        entries_map(s).contains_key(s[i].key),
        entries_map(s)[s[i].key] == s[i].value,
    decreases s.len(),
{
    lemma_entries_map_dom(s);
    if i == s.len() - 1 {
    } else {
        assert(forall|x: int| 0 <= x < s.len() - 1 ==> s.drop_last()[x] == s[x]);
        lemma_entries_map_at(s.drop_last(), i);
        assert(s.last().key != s[i].key);
    }
}

/// Removing the entry at an index removes exactly its key from the map.
pub proof fn lemma_entries_map_remove(s: Seq<SecretEntryV>, i: int)
    requires
        forall|x: int, y: int| 0 <= x < y < s.len() ==> (#[trigger] s[x]).key != (#[trigger] s[y]).key,
        0 <= i < s.len(),
    ensures
        entries_map(s.remove(i)) == entries_map(s).remove(s[i].key),
    decreases s.len(),
{
    lemma_entries_map_dom(s);
    lemma_entries_map_dom(s.drop_last());
    assert(forall|x: int| 0 <= x < s.len() - 1 ==> s.drop_last()[x] == s[x]);
    if i == s.len() - 1 {
        assert(s.remove(i) =~= s.drop_last());
        assert(!entries_map(s.drop_last()).contains_key(s[i].key));
        assert(entries_map(s.drop_last()) =~= entries_map(s).remove(s[i].key));
    } else {
        lemma_entries_map_remove(s.drop_last(), i);
        assert(s.remove(i).drop_last() =~= s.drop_last().remove(i));
        assert(s.remove(i).last() == s.last());
        assert(entries_map(s.remove(i)) == entries_map(s.drop_last().remove(i)).insert(
            s.last().key,
            s.last().value,
        ));
        assert(entries_map(s.remove(i)) =~= entries_map(s).remove(s[i].key));
    }
}

/// The in-memory secret store. A production backing would be the platform
/// keychain; the interface contract is what the core depends on.
pub struct KeychainManager {
    entries: Vec<SecretEntry>,
}

impl View for KeychainManager {
    type V = Map<Seq<char>, Seq<char>>;

    closed spec fn view(&self) -> Map<Seq<char>, Seq<char>> {
        entries_map(self.entries.deep_view())
    }
}

impl KeychainManager {
    /// Keys pairwise distinct and all inside the namespace.
    pub closed spec fn wf(&self) -> bool {
        (forall|x: int, y: int|
            0 <= x < y < self.entries.deep_view().len() ==> (#[trigger] self.entries.deep_view()[x]).key
                != (#[trigger] self.entries.deep_view()[y]).key) && (forall|x: int|
            0 <= x < self.entries.deep_view().len() ==> has_prefix(
                (#[trigger] self.entries.deep_view()[x]).key,
                key_namespace(),
            ))
    }

    /// An empty store.
    pub fn new() -> (kc: KeychainManager)
        ensures
            kc@ == Map::<Seq<char>, Seq<char>>::empty(),
            kc.wf(),
    {
        let kc = KeychainManager { entries: Vec::new() };
        proof {
            assert(kc.entries.deep_view() =~= Seq::<SecretEntryV>::empty());
        }
        kc
    }

    /// Position of the entry holding `key`, if any.
    fn find_key(&self, key: &str) -> (r: Option<usize>)
        ensures
            match r {
                Some(i) => i < self.entries.deep_view().len() && self.entries.deep_view()[i as int].key
                    == key@,
                None => forall|j: int|
                    0 <= j < self.entries.deep_view().len()
                        ==> (#[trigger] self.entries.deep_view()[j]).key != key@,
            },
    {
        let mut i: usize = 0;
        while i < self.entries.len()
            invariant
                i <= self.entries.len(),
                forall|j: int|
                    0 <= j < i ==> (#[trigger] self.entries.deep_view()[j]).key != key@,
            decreases self.entries.len() - i,
        {
            if str_eq(self.entries[i].key.as_str(), key) {
                return Some(i);
            }
            i += 1;
        }
        None
    }

    /// Build the storage key for an account name.
    fn account_key(account: &str) -> (r: String)
        ensures
            r@ == secret_key_of(account@),
    {
        let mut key = String::from_str("github:");
        key.append(account);
        key
    }

    /// Remember `token` as the secret of `account`, replacing any earlier
    /// secret stored for the same username.
    pub fn store_token(&mut self, account: &str, token: &str) -> (r: Result<(), KeychainError>)
        requires
            old(self).wf(),
        ensures
            final(self).wf(),
            final(self)@ == old(self)@.insert(secret_key_of(account@), token@),
            r is Ok,
    {
        let key = Self::account_key(account);
        let ghost s0 = self.entries.deep_view();
        let ghost target = secret_key_of(account@);
        match self.find_key(key.as_str()) {
            Some(i) => {
                proof {
                    lemma_entries_map_remove(s0, i as int);
                }
                self.entries.remove(i);
                proof {
                    let s1 = self.entries.deep_view();
                    assert(s1 =~= s0.remove(i as int));
                    assert(forall|x: int| 0 <= x < i ==> s1[x] == s0[x]);
                    assert(forall|x: int| i <= x < s1.len() ==> s1[x] == s0[x + 1]);
                    assert forall|x: int| 0 <= x < s1.len() implies (#[trigger] s1[x]).key
                        != target by {
                        if x < i {
                            assert(s1[x] == s0[x]);
                        } else {
                            assert(s1[x] == s0[x + 1]);
                        }
                    }
                }
            },
            None => {
                proof {
                    lemma_entries_map_dom(s0);
                    assert(!old(self)@.contains_key(target));
                    assert(self@ =~= self@.remove(target));
                }
            },
        }
        let ghost s1 = self.entries.deep_view();
        proof {
            assert(entries_map(s1) == old(self)@.remove(target));
            assert(forall|x: int| 0 <= x < s1.len() ==> (#[trigger] s1[x]).key != target);
            assert((key_namespace() + account@).subrange(0, key_namespace().len() as int)
                =~= key_namespace());
            assert(has_prefix(target, key_namespace()));
        }
        let entry = SecretEntry { key: key, value: token.to_owned() };
        self.entries.push(entry);
        proof {
            assert(self.entries.deep_view() =~= s1.push(entry@));
            assert(self.entries.deep_view().drop_last() =~= s1);
            assert(self.entries.deep_view().last() == entry@);
            assert(self@ == entries_map(s1).insert(target, token@));
            assert(self@ =~= old(self)@.insert(target, token@));
            let s2 = self.entries.deep_view();
            assert(forall|x: int| 0 <= x < s1.len() ==> s2[x] == s1[x]);
            assert(s2[s2.len() - 1] == entry@);
        }
        Ok(())
    }

    /// The secret stored for `account`, or `ItemNotFound`.
    pub fn get_token(&self, account: &str) -> (r: Result<String, KeychainError>)
        requires
            self.wf(),
        ensures
            match r {
                Ok(tok) => self@.contains_key(secret_key_of(account@)) && tok@
                    == self@[secret_key_of(account@)],
                Err(e) => e == KeychainError::ItemNotFound && !self@.contains_key(
                    secret_key_of(account@),
                ),
            },
    {
        let key = Self::account_key(account);
        proof {
            lemma_entries_map_dom(self.entries.deep_view());
        }
        match self.find_key(key.as_str()) {
            Some(i) => {
                proof {
                    lemma_entries_map_at(self.entries.deep_view(), i as int);
                }
                Ok(self.entries[i].value.clone())
            },
            None => Err(KeychainError::ItemNotFound),
        }
    }

    /// Forget the secret stored for `account`; forgetting an absent secret
    /// is not an error.
    pub fn delete_token(&mut self, account: &str) -> (r: Result<(), KeychainError>)
        requires
            old(self).wf(),
        ensures
            final(self).wf(),
            final(self)@ == old(self)@.remove(secret_key_of(account@)),
            r is Ok,
    {
        let key = Self::account_key(account);
        let ghost s0 = self.entries.deep_view();
        match self.find_key(key.as_str()) {
            Some(i) => {
                proof {
                    lemma_entries_map_remove(s0, i as int);
                }
                self.entries.remove(i);
                proof {
                    let s1 = self.entries.deep_view();
                    assert(s1 =~= s0.remove(i as int));
                    assert(forall|x: int| 0 <= x < i ==> s1[x] == s0[x]);
                    assert(forall|x: int| i <= x < s1.len() ==> s1[x] == s0[x + 1]);
                }
            },
            None => {
                proof {
                    lemma_entries_map_dom(s0);
                    assert(!old(self)@.contains_key(secret_key_of(account@)));
                    assert(self@ =~= old(self)@.remove(secret_key_of(account@)));
                }
            },
        }
        Ok(())
    }

    /// The usernames that currently have a stored secret.
    pub fn list_tokens(&self) -> (r: Result<Vec<String>, KeychainError>)
        requires
            self.wf(),
        ensures
            match r {
                Ok(names) => {
                    &&& forall|i: int, j: int|
                        0 <= i < j < names.deep_view().len() ==> #[trigger] names.deep_view()[i]
                            != #[trigger] names.deep_view()[j]
                    &&& forall|i: int|
                        0 <= i < names.deep_view().len() ==> self@.contains_key(
                            secret_key_of(#[trigger] names.deep_view()[i]),
                        )
                    &&& forall|k: Seq<char>|
                        self@.contains_key(k) ==> exists|i: int|
                            0 <= i < names.deep_view().len() && k == secret_key_of(
                                #[trigger] names.deep_view()[i],
                            )
                },
                Err(_) => false,
            },
    {
        proof {
            lemma_entries_map_dom(self.entries.deep_view());
        }
        let mut names: Vec<String> = Vec::new();
        let mut i: usize = 0;
        while i < self.entries.len()
            invariant
                self.wf(),
                i <= self.entries.len(),
                names.deep_view().len() == i,
                forall|j: int|
                    0 <= j < i ==> secret_key_of(#[trigger] names.deep_view()[j])
                        == self.entries.deep_view()[j].key,
            decreases self.entries.len() - i,
        {
            let key = &self.entries[i].key;
            let len = key.as_str().unicode_len();
            proof {
                assert(has_prefix(self.entries.deep_view()[i as int].key, key_namespace()));
                reveal_strlit("github:");
            }
            let name = key.as_str().substring_char(7, len).to_owned();
            let ghost nv = name@;
            proof {
                assert(secret_key_of(nv) =~= self.entries.deep_view()[i as int].key);
                assert(names.deep_view().len() == i as int);
            }
            let ghost old_names = names.deep_view();
            names.push(name);
            proof {
                assert(names.deep_view().len() == i + 1);
                assert(names.deep_view()[i as int] == nv);
                assert(forall|j: int| 0 <= j < i ==> #[trigger] names.deep_view()[j] == old_names[j]);
                assert forall|j: int| 0 <= j < i + 1 implies secret_key_of(
                    #[trigger] names.deep_view()[j],
                ) == self.entries.deep_view()[j].key by {
                    if j < i {
                        assert(secret_key_of(old_names[j]) == self.entries.deep_view()[j].key);
                    }
                }
            }
            i += 1;
        }
        proof {
            lemma_entries_map_dom(self.entries.deep_view());
            assert forall|k: Seq<char>| self@.contains_key(k) implies exists|i: int|
                0 <= i < names.deep_view().len() && k == secret_key_of(
                    #[trigger] names.deep_view()[i],
                ) by {
                let w = choose|w: int|
                    0 <= w < self.entries.deep_view().len()
                        && (#[trigger] self.entries.deep_view()[w]).key == k;
                assert(secret_key_of(names.deep_view()[w]) == k);
            }
            assert forall|i: int, j: int|
                0 <= i < j < names.deep_view().len() implies #[trigger] names.deep_view()[i]
                != #[trigger] names.deep_view()[j] by {
                assert(secret_key_of(names.deep_view()[i]) == self.entries.deep_view()[i].key);
                assert(secret_key_of(names.deep_view()[j]) == self.entries.deep_view()[j].key);
            }
        }
        Ok(names)
    }
}

} // verus!

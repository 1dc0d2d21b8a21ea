//! The account and mapping directory: the records the resolution policy
//! works on, held in memory with a well-formedness invariant. Usernames and
//! account identifiers are unique, at most one mapping exists per remote
//! URL, and accounts are ordered most-recently-created first.

use vstd::prelude::*;

use crate::clock::now_timestamp;
use crate::ids::fresh_id;
use crate::strings::str_eq;

verus! {

/// How an account's credential was obtained.
#[derive(Clone, Copy, Debug, PartialEq, Eq, Structural)]
pub enum AuthMethod {
    DeviceFlow,
    Manual,
}

/// The storage label of an authentication method.
pub open spec fn auth_method_label(m: AuthMethod) -> Seq<char> {
    match m {
        AuthMethod::DeviceFlow => "device_flow"@,
        AuthMethod::Manual => "manual"@,
    }
}

/// Render an authentication method as its storage label.
pub fn auth_method_string(m: AuthMethod) -> (r: String)
    ensures
        r@ == auth_method_label(m),
{
    match m {
        AuthMethod::DeviceFlow => String::from_str("device_flow"),
        AuthMethod::Manual => String::from_str("manual"),
    }
}

/// A stored identity. The credential itself never lives here; it is held by
/// the secret store under a key derived from `username`.
pub struct Account {
    pub id: String,
    pub username: String,
    pub avatar_url: Option<String>,
    pub auth_method: AuthMethod,
    pub created_at: i64,
}

/// Mathematical image of an `Account`.
pub struct AccountV {
    pub id: Seq<char>,
    pub username: Seq<char>,
    pub avatar_url: Option<Seq<char>>,
    pub auth_method: AuthMethod,
    pub created_at: int,
}

impl View for Account {
    type V = AccountV;

    open spec fn view(&self) -> AccountV {
        AccountV {
            id: self.id@,
            username: self.username@,
            avatar_url: self.avatar_url.deep_view(),
            auth_method: self.auth_method,
            created_at: self.created_at as int,
        }
    }
}

impl DeepView for Account {
    type V = AccountV;

    open spec fn deep_view(&self) -> AccountV {
        self.view()
    }
}

/// The remembered association between one remote URL and one account.
pub struct RepositoryMapping {
    pub id: String,
    pub remote_url: String,
    pub account_id: String,
    pub remember: bool,
    pub created_at: i64,
}

/// Mathematical image of a `RepositoryMapping`.
pub struct MappingV {
    pub id: Seq<char>,
    pub remote_url: Seq<char>,
    pub account_id: Seq<char>,
    pub remember: bool,
    pub created_at: int,
}

impl View for RepositoryMapping {
    type V = MappingV;

    open spec fn view(&self) -> MappingV {
        MappingV {
            id: self.id@,
            remote_url: self.remote_url@,
            account_id: self.account_id@,
            remember: self.remember,
            created_at: self.created_at as int,
        }
    }
}

impl DeepView for RepositoryMapping {
    type V = MappingV;

    open spec fn deep_view(&self) -> MappingV {
        self.view()
    }
}

/// Copy an optional string, preserving its contents.
fn clone_opt_string(o: &Option<String>) -> (r: Option<String>)
    ensures
        r.deep_view() == o.deep_view(),
{
    match o {
        Some(s) => Some(s.clone()),
        None => None,
    }
}

/// Copy an account record, preserving its contents.
pub fn clone_account(a: &Account) -> (r: Account)
    ensures
        r@ == a@,
{
    Account {
        id: a.id.clone(),
        username: a.username.clone(),
        avatar_url: clone_opt_string(&a.avatar_url),
        auth_method: a.auth_method,
        created_at: a.created_at,
    }
}

/// Copy a mapping record, preserving its contents.
pub fn clone_mapping(m: &RepositoryMapping) -> (r: RepositoryMapping)
    ensures
        r@ == m@,
{
    RepositoryMapping {
        id: m.id.clone(),
        remote_url: m.remote_url.clone(),
        account_id: m.account_id.clone(),
        remember: m.remember,
        created_at: m.created_at,
    }
}

/// Mathematical image of the whole directory.
pub struct DbView {
    pub accounts: Seq<AccountV>,
    pub mappings: Seq<MappingV>,
}

/// Usernames pairwise distinct, identifiers pairwise distinct, and the
/// sequence ordered by creation time, most recent first.
pub open spec fn accounts_wf(s: Seq<AccountV>) -> bool {
    (forall|i: int, j: int|
        0 <= i < j < s.len() ==> #[trigger] s[i].username != #[trigger] s[j].username)
        && (forall|i: int, j: int| 0 <= i < j < s.len() ==> #[trigger] s[i].id != #[trigger] s[j].id)
        && (forall|i: int, j: int|
        0 <= i <= j < s.len() ==> #[trigger] s[i].created_at >= #[trigger] s[j].created_at)
}

/// At most one mapping per remote URL.
pub open spec fn mappings_wf(s: Seq<MappingV>) -> bool {
    forall|i: int, j: int|
        0 <= i < j < s.len() ==> #[trigger] s[i].remote_url != #[trigger] s[j].remote_url
}

pub open spec fn db_wf(db: DbView) -> bool {
    accounts_wf(db.accounts) && mappings_wf(db.mappings)
}

pub open spec fn has_mapping_for(ms: Seq<MappingV>, url: Seq<char>) -> bool {
    exists|i: int| 0 <= i < ms.len() && #[trigger] ms[i].remote_url == url
}

pub open spec fn mapping_for(ms: Seq<MappingV>, url: Seq<char>) -> MappingV {
    ms[choose|i: int| 0 <= i < ms.len() && #[trigger] ms[i].remote_url == url]
}

pub open spec fn has_account_with_id(s: Seq<AccountV>, id: Seq<char>) -> bool {
    exists|i: int| 0 <= i < s.len() && #[trigger] s[i].id == id
}

pub open spec fn account_with_id(s: Seq<AccountV>, id: Seq<char>) -> AccountV {
    s[choose|i: int| 0 <= i < s.len() && #[trigger] s[i].id == id]
}

pub open spec fn has_account_with_username(s: Seq<AccountV>, username: Seq<char>) -> bool {
    exists|i: int| 0 <= i < s.len() && #[trigger] s[i].username == username
}

pub open spec fn account_with_username(s: Seq<AccountV>, username: Seq<char>) -> AccountV {
    s[choose|i: int| 0 <= i < s.len() && #[trigger] s[i].username == username]
}

/// The accounts that survive replacing a record: those colliding neither on
/// username nor on identifier are kept.
pub open spec fn accounts_without(s: Seq<AccountV>, username: Seq<char>, id: Seq<char>) -> Seq<
    AccountV,
>
    decreases s.len(),
{
    if s.len() == 0 {
        Seq::empty()
    } else {
        let rest = accounts_without(s.drop_last(), username, id);
        if s.last().username != username && s.last().id != id {
            rest.push(s.last())
        } else {
            rest
        }
    }
}

/// The accounts other than the one with the given identifier.
pub open spec fn accounts_without_id(s: Seq<AccountV>, id: Seq<char>) -> Seq<AccountV>
    decreases s.len(),
{
    if s.len() == 0 {
        Seq::empty()
    } else {
        let rest = accounts_without_id(s.drop_last(), id);
        if s.last().id != id {
            rest.push(s.last())
        } else {
            rest
        }
    }
}

/// The mappings whose remote URL differs from `url`.
pub open spec fn mappings_without_url(s: Seq<MappingV>, url: Seq<char>) -> Seq<MappingV>
    decreases s.len(),
{
    if s.len() == 0 {
        Seq::empty()
    } else {
        let rest = mappings_without_url(s.drop_last(), url);
        if s.last().remote_url != url {
            rest.push(s.last())
        } else {
            rest
        }
    }
}

/// The mappings not referencing the given account.
pub open spec fn mappings_without_account(s: Seq<MappingV>, account_id: Seq<char>) -> Seq<MappingV>
    decreases s.len(),
{
    if s.len() == 0 {
        Seq::empty()
    } else {
        let rest = mappings_without_account(s.drop_last(), account_id);
        if s.last().account_id != account_id {
            rest.push(s.last())
        } else {
            rest
        }
    }
}

/// The mappings whose own identifier differs from `id`.
pub open spec fn mappings_without_id(s: Seq<MappingV>, id: Seq<char>) -> Seq<MappingV>
    decreases s.len(),
{
    if s.len() == 0 {
        Seq::empty()
    } else {
        let rest = mappings_without_id(s.drop_last(), id);
        if s.last().id != id {
            rest.push(s.last())
        } else {
            rest
        }
    }
}

/// What survives `accounts_without`: only non-colliding records, all of them
/// drawn from the original sequence, with well-formedness preserved.
pub proof fn lemma_accounts_without_props(s: Seq<AccountV>, username: Seq<char>, id: Seq<char>)
    ensures
        forall|i: int|
            0 <= i < accounts_without(s, username, id).len() ==> (#[trigger] accounts_without(
                s,
                username,
                id,
            )[i]).username != username && accounts_without(s, username, id)[i].id != id,
        forall|i: int|
            0 <= i < accounts_without(s, username, id).len() ==> s.contains(
                #[trigger] accounts_without(s, username, id)[i],
            ),
        accounts_wf(s) ==> accounts_wf(accounts_without(s, username, id)),
    decreases s.len(),
{
    if s.len() != 0 {
        let d = s.drop_last();
        let f = accounts_without(s, username, id);
        let fd = accounts_without(d, username, id);
        lemma_accounts_without_props(d, username, id);
        assert(forall|i: int| 0 <= i < d.len() ==> d[i] == s[i]);
        assert forall|i: int| 0 <= i < f.len() implies s.contains(#[trigger] f[i]) by {
            if i < fd.len() {
                let w = choose|k: int| 0 <= k < d.len() && d[k] == fd[i];
                assert(s[w] == f[i]);
            } else {
                assert(f[i] == s[s.len() - 1]);
            }
        }
        if accounts_wf(s) {
            assert(accounts_wf(d));
            assert forall|x: int, y: int| 0 <= x < y < f.len() implies #[trigger] f[x].username
                != #[trigger] f[y].username && f[x].id != f[y].id && f[x].created_at
                >= f[y].created_at by {
                if y < fd.len() {
                } else {
                    assert(f[y] == s.last());
                    assert(d.contains(fd[x]));
                    let w = choose|k: int| 0 <= k < d.len() && d[k] == fd[x];
                    assert(s[w] == f[x]);
                    assert(s[w].username != s[s.len() - 1].username);
                    assert(s[w].created_at >= s[s.len() - 1].created_at);
                }
            }
            assert(accounts_wf(f));
        }
    }
}

/// What survives `accounts_without_id`, with well-formedness preserved.
pub proof fn lemma_accounts_without_id_props(s: Seq<AccountV>, id: Seq<char>)
    ensures
        forall|i: int|
            0 <= i < accounts_without_id(s, id).len() ==> (#[trigger] accounts_without_id(
                s,
                id,
            )[i]).id != id,
        forall|i: int|
            0 <= i < accounts_without_id(s, id).len() ==> s.contains(
                #[trigger] accounts_without_id(s, id)[i],
            ),
        accounts_wf(s) ==> accounts_wf(accounts_without_id(s, id)),
    decreases s.len(),
{
    if s.len() != 0 {
        let d = s.drop_last();
        let f = accounts_without_id(s, id);
        let fd = accounts_without_id(d, id);
        lemma_accounts_without_id_props(d, id);
        assert(forall|i: int| 0 <= i < d.len() ==> d[i] == s[i]);
        assert forall|i: int| 0 <= i < f.len() implies s.contains(#[trigger] f[i]) by {
            if i < fd.len() {
                let w = choose|k: int| 0 <= k < d.len() && d[k] == fd[i];
                assert(s[w] == f[i]);
            } else {
                assert(f[i] == s[s.len() - 1]);
            }
        }
        if accounts_wf(s) {
            assert(accounts_wf(d));
            assert forall|x: int, y: int| 0 <= x < y < f.len() implies #[trigger] f[x].username
                != #[trigger] f[y].username && f[x].id != f[y].id && f[x].created_at
                >= f[y].created_at by {
                if y < fd.len() {
                } else {
                    assert(f[y] == s.last());
                    assert(d.contains(fd[x]));
                    let w = choose|k: int| 0 <= k < d.len() && d[k] == fd[x];
                    assert(s[w] == f[x]);
                    assert(s[w].username != s[s.len() - 1].username);
                    assert(s[w].created_at >= s[s.len() - 1].created_at);
                }
            }
            assert(accounts_wf(f));
        }
    }
}

/// What survives `mappings_without_url`, with uniqueness of URLs preserved.
pub proof fn lemma_mappings_without_url_props(s: Seq<MappingV>, url: Seq<char>)
    ensures
        forall|i: int|
            0 <= i < mappings_without_url(s, url).len() ==> (#[trigger] mappings_without_url(
                s,
                url,
            )[i]).remote_url != url,
        forall|i: int|
            0 <= i < mappings_without_url(s, url).len() ==> s.contains(
                #[trigger] mappings_without_url(s, url)[i],
            ),
        mappings_wf(s) ==> mappings_wf(mappings_without_url(s, url)),
    decreases s.len(),
{
    if s.len() != 0 {
        let d = s.drop_last();
        let f = mappings_without_url(s, url);
        let fd = mappings_without_url(d, url);
        lemma_mappings_without_url_props(d, url);
        assert(forall|i: int| 0 <= i < d.len() ==> d[i] == s[i]);
        assert forall|i: int| 0 <= i < f.len() implies s.contains(#[trigger] f[i]) by {
            if i < fd.len() {
                let w = choose|k: int| 0 <= k < d.len() && d[k] == fd[i];
                assert(s[w] == f[i]);
            } else {
                assert(f[i] == s[s.len() - 1]);
            }
        }
        if mappings_wf(s) {
            assert(mappings_wf(d));
            assert forall|x: int, y: int| 0 <= x < y < f.len() implies #[trigger] f[x].remote_url
                != #[trigger] f[y].remote_url by {
                if y < fd.len() {
                } else {
                    assert(f[y] == s.last());
                    assert(d.contains(fd[x]));
                    let w = choose|k: int| 0 <= k < d.len() && d[k] == fd[x];
                    assert(s[w] == f[x]);
                    assert(s[w].remote_url != s[s.len() - 1].remote_url);
                }
            }
            assert(mappings_wf(f));
        }
    }
}

/// What survives `mappings_without_account`, with uniqueness preserved.
pub proof fn lemma_mappings_without_account_props(s: Seq<MappingV>, account_id: Seq<char>)
    ensures
        forall|i: int|
            0 <= i < mappings_without_account(s, account_id).len() ==> (
            #[trigger] mappings_without_account(s, account_id)[i]).account_id != account_id,
        forall|i: int|
            0 <= i < mappings_without_account(s, account_id).len() ==> s.contains(
                #[trigger] mappings_without_account(s, account_id)[i],
            ),
        mappings_wf(s) ==> mappings_wf(mappings_without_account(s, account_id)),
    decreases s.len(),
{
    if s.len() != 0 {
        let d = s.drop_last();
        let f = mappings_without_account(s, account_id);
        let fd = mappings_without_account(d, account_id);
        lemma_mappings_without_account_props(d, account_id);
        assert(forall|i: int| 0 <= i < d.len() ==> d[i] == s[i]);
        assert forall|i: int| 0 <= i < f.len() implies s.contains(#[trigger] f[i]) by {
            if i < fd.len() {
                let w = choose|k: int| 0 <= k < d.len() && d[k] == fd[i];
                assert(s[w] == f[i]);
            } else {
                assert(f[i] == s[s.len() - 1]);
            }
        }
        if mappings_wf(s) {
            assert(mappings_wf(d));
            assert forall|x: int, y: int| 0 <= x < y < f.len() implies #[trigger] f[x].remote_url
                != #[trigger] f[y].remote_url by {
                if y < fd.len() {
                } else {
                    assert(f[y] == s.last());
                    assert(d.contains(fd[x]));
                    let w = choose|k: int| 0 <= k < d.len() && d[k] == fd[x];
                    assert(s[w] == f[x]);
                    assert(s[w].remote_url != s[s.len() - 1].remote_url);
                }
            }
            assert(mappings_wf(f));
        }
    }
}

/// What survives `mappings_without_id`, with uniqueness preserved.
pub proof fn lemma_mappings_without_id_props(s: Seq<MappingV>, id: Seq<char>)
    ensures
        forall|i: int|
            0 <= i < mappings_without_id(s, id).len() ==> s.contains(
                #[trigger] mappings_without_id(s, id)[i],
            ),
        mappings_wf(s) ==> mappings_wf(mappings_without_id(s, id)),
    decreases s.len(),
{
    if s.len() != 0 {
        let d = s.drop_last();
        let f = mappings_without_id(s, id);
        let fd = mappings_without_id(d, id);
        lemma_mappings_without_id_props(d, id);
        assert(forall|i: int| 0 <= i < d.len() ==> d[i] == s[i]);
        assert forall|i: int| 0 <= i < f.len() implies s.contains(#[trigger] f[i]) by {
            if i < fd.len() {
                let w = choose|k: int| 0 <= k < d.len() && d[k] == fd[i];
                assert(s[w] == f[i]);
            } else {
                assert(f[i] == s[s.len() - 1]);
            }
        }
        if mappings_wf(s) {
            assert(mappings_wf(d));
            assert forall|x: int, y: int| 0 <= x < y < f.len() implies #[trigger] f[x].remote_url
                != #[trigger] f[y].remote_url by {
                if y < fd.len() {
                } else {
                    assert(f[y] == s.last());
                    assert(d.contains(fd[x]));
                    let w = choose|k: int| 0 <= k < d.len() && d[k] == fd[x];
                    assert(s[w] == f[x]);
                    assert(s[w].remote_url != s[s.len() - 1].remote_url);
                }
            }
            assert(mappings_wf(f));
        }
    }
}

/// Index at which a record created at `t` enters the descending order:
/// after every strictly newer record, before all others.
pub open spec fn insert_pos(s: Seq<AccountV>, t: int) -> int
    decreases s.len(),
{
    if s.len() == 0 {
        0
    } else if s[0].created_at <= t {
        0
    } else {
        1 + insert_pos(s.skip(1), t)
    }
}

pub proof fn lemma_insert_pos(s: Seq<AccountV>, t: int)
    ensures
        0 <= insert_pos(s, t) <= s.len(),
        forall|j: int| 0 <= j < insert_pos(s, t) ==> s[j].created_at > t,
        insert_pos(s, t) < s.len() ==> s[insert_pos(s, t)].created_at <= t,
    decreases s.len(),
{
    if s.len() == 0 {
    } else if s[0].created_at <= t {
    } else {
        lemma_insert_pos(s.skip(1), t);
        assert forall|j: int| 0 <= j < insert_pos(s, t) implies s[j].created_at > t by {
            if j >= 1 {
                assert(s.skip(1)[j - 1].created_at > t);
                assert(s.skip(1)[j - 1] == s[j]);
            }
        }
        if insert_pos(s, t) < s.len() {
            assert(s.skip(1)[insert_pos(s.skip(1), t)] == s[insert_pos(s, t)]);
        }
    }
}

/// The directory after remembering `url` as belonging to `account_id`:
/// any earlier mapping for the same URL is gone and one new record, with
/// some identifier and creation time, stands in its place.
pub open spec fn with_mapping(
    db: DbView,
    url: Seq<char>,
    account_id: Seq<char>,
    remember: bool,
    id: Seq<char>,
    ts: int,
) -> DbView {
    DbView {
        accounts: db.accounts,
        mappings: mappings_without_url(db.mappings, url).push(
            MappingV {
                id: id,
                remote_url: url,
                account_id: account_id,
                remember: remember,
                created_at: ts,
            },
        ),
    }
}

/// The directory of accounts and repository mappings.
pub struct Database {
    accounts: Vec<Account>,
    mappings: Vec<RepositoryMapping>,
}

impl View for Database {
    type V = DbView;

    closed spec fn view(&self) -> DbView {
        DbView { accounts: self.accounts.deep_view(), mappings: self.mappings.deep_view() }
    }
}

impl Database {
    pub open spec fn wf(&self) -> bool {
        db_wf(self@)
    }

    /// An empty directory.
    pub fn new() -> (db: Database)
        ensures
            db@.accounts == Seq::<AccountV>::empty(),
            db@.mappings == Seq::<MappingV>::empty(),
            db.wf(),
    {
        let db = Database { accounts: Vec::new(), mappings: Vec::new() };
        proof {
            assert(db@.accounts =~= Seq::<AccountV>::empty());
            assert(db@.mappings =~= Seq::<MappingV>::empty());
        }
        db
    }

    /// Record an account. A record colliding on username or identifier is
    /// replaced; the new record enters at its place in the creation order,
    /// before any record created at the same instant.
    pub fn add_account(&mut self, account: &Account)
        requires
            old(self).wf(),
        ensures
            final(self).wf(),
            final(self)@.mappings == old(self)@.mappings,
            final(self)@.accounts == accounts_without(
                old(self)@.accounts,
                account@.username,
                account@.id,
            ).insert(
                insert_pos(
                    accounts_without(old(self)@.accounts, account@.username, account@.id),
                    account@.created_at,
                ),
                account@,
            ),
    {
        let ghost s0 = self@.accounts;
        let mut kept: Vec<Account> = Vec::new();
        let mut i: usize = 0;
        while i < self.accounts.len()
            invariant
                i <= self.accounts.len(),
                self.accounts.deep_view() == s0,
                kept.deep_view() == accounts_without(s0.take(i as int), account@.username, account@.id),
            decreases self.accounts.len() - i,
        {
            let a = &self.accounts[i];
            let keep = !(str_eq(a.username.as_str(), account.username.as_str()) || str_eq(
                a.id.as_str(),
                account.id.as_str(),
            ));
            if keep {
                kept.push(clone_account(a));
            }
            proof {
                let pref = s0.take(i + 1);
                assert(pref.drop_last() =~= s0.take(i as int));
                assert(pref.last() == s0[i as int]);
                assert(kept.deep_view() =~= accounts_without(pref, account@.username, account@.id));
            }
            i += 1;
        }
        proof {
            assert(s0.take(s0.len() as int) =~= s0);
        }
        let ghost filtered = accounts_without(s0, account@.username, account@.id);
        let mut pos: usize = 0;
        while pos < kept.len() && kept[pos].created_at > account.created_at
            invariant
                pos <= kept.len(),
                kept.deep_view() == filtered,
                forall|j: int| 0 <= j < pos ==> filtered[j].created_at > account@.created_at,
            decreases kept.len() - pos,
        {
            proof {
                assert(filtered[pos as int] == kept@[pos as int]@);
            }
            pos += 1;
        }
        proof {
            lemma_insert_pos(filtered, account@.created_at);
            if pos < kept.len() {
                assert(filtered[pos as int] == kept@[pos as int]@);
            }
            assert(pos as int == insert_pos(filtered, account@.created_at));
        }
        kept.insert(pos, clone_account(account));
        proof {
            filtered.insert_ensures(pos as int, account@);
            assert(kept.deep_view() =~= filtered.insert(pos as int, account@));
            lemma_accounts_without_props(s0, account@.username, account@.id);
        }
        self.accounts = kept;
        proof {
            let out = self@.accounts;
            let p = pos as int;
            assert forall|x: int, y: int| 0 <= x < y < out.len() implies out[x].username
                != out[y].username && out[x].id != out[y].id by {
                if x != p && y != p {
                    let fx: int = if x < p { x } else { x - 1 };
                    let fy: int = if y < p { y } else { y - 1 };
                    assert(out[x] == filtered[fx] && out[y] == filtered[fy]);
                } else if x == p {
                    assert(out[y] == filtered[y - 1]);
                } else {
                    assert(out[x] == filtered[x]);
                }
            }
            assert forall|x: int, y: int| 0 <= x <= y < out.len() implies out[x].created_at
                >= out[y].created_at by {
                lemma_insert_pos(filtered, account@.created_at);
                if x != p && y != p {
                    let fx: int = if x < p { x } else { x - 1 };
                    let fy: int = if y < p { y } else { y - 1 };
                    assert(out[x] == filtered[fx] && out[y] == filtered[fy]);
                } else if x == p && y != p {
                    assert(out[y] == filtered[y - 1]);
                } else if y == p && x != p {
                    assert(out[x] == filtered[x]);
                }
            }
        }
    }

    /// All accounts, most recently created first.
    pub fn get_accounts(&self) -> (r: Vec<Account>)
        ensures
            r.deep_view() == self@.accounts,
    {
        let mut r: Vec<Account> = Vec::new();
        let mut i: usize = 0;
        while i < self.accounts.len()
            invariant
                i <= self.accounts.len(),
                r.deep_view() == self.accounts.deep_view().take(i as int),
            decreases self.accounts.len() - i,
        {
            proof {
                assert(self.accounts.deep_view().len() == self.accounts@.len());
                assert(self.accounts.deep_view().take(i as int).len() == i as int);
                assert(r@.len() == i as int);
            }
            r.push(clone_account(&self.accounts[i]));
            proof {
                assert(r.deep_view() =~= self.accounts.deep_view().take(i + 1));
            }
            i += 1;
        }
        proof {
            assert(self.accounts.deep_view().take(self.accounts.len() as int) =~= self@.accounts);
        }
        r
    }

    /// Position of the account with the given username, if any.
    fn find_by_username(&self, username: &str) -> (r: Option<usize>)
        ensures
            match r {
                Some(i) => i < self@.accounts.len() && self@.accounts[i as int].username
                    == username@,
                None => !has_account_with_username(self@.accounts, username@),
            },
    {
        let mut i: usize = 0;
        while i < self.accounts.len()
            invariant
                i <= self.accounts.len(),
                forall|j: int| 0 <= j < i ==> self@.accounts[j].username != username@,
            decreases self.accounts.len() - i,
        {
            if str_eq(self.accounts[i].username.as_str(), username) {
                return Some(i);
            }
            i += 1;
        }
        None
    }

    /// Position of the account with the given identifier, if any.
    fn find_by_id(&self, id: &str) -> (r: Option<usize>)
        ensures
            match r {
                Some(i) => i < self@.accounts.len() && self@.accounts[i as int].id == id@,
                None => !has_account_with_id(self@.accounts, id@),
            },
    {
        let mut i: usize = 0;
        while i < self.accounts.len()
            invariant
                i <= self.accounts.len(),
                forall|j: int| 0 <= j < i ==> self@.accounts[j].id != id@,
            decreases self.accounts.len() - i,
        {
            if str_eq(self.accounts[i].id.as_str(), id) {
                return Some(i);
            }
            i += 1;
        }
        None
    }

    /// The account carrying `username`, if one exists.
    pub fn get_account_by_username(&self, username: &str) -> (r: Option<Account>)
        requires
            self.wf(),
        ensures
            match r {
                Some(a) => has_account_with_username(self@.accounts, username@) && a@
                    == account_with_username(self@.accounts, username@),
                None => !has_account_with_username(self@.accounts, username@),
            },
    {
        match self.find_by_username(username) {
            Some(i) => {
                let a = clone_account(&self.accounts[i]);
                proof {
                    assert(has_account_with_username(self@.accounts, username@));
                    let k = choose|k: int|
                        0 <= k < self@.accounts.len() && #[trigger] self@.accounts[k].username
                            == username@;
                    assert(k == i as int);
                }
                Some(a)
            },
            None => None,
        }
    }

    /// The account carrying the identifier `id`, if one exists.
    pub fn get_account_by_id(&self, id: &str) -> (r: Option<Account>)
        requires
            self.wf(),
        ensures
            match r {
                Some(a) => has_account_with_id(self@.accounts, id@) && a@ == account_with_id(
                    self@.accounts,
                    id@,
                ),
                None => !has_account_with_id(self@.accounts, id@),
            },
    {
        match self.find_by_id(id) {
            Some(i) => {
                let a = clone_account(&self.accounts[i]);
                proof {
                    assert(has_account_with_id(self@.accounts, id@));
                    let k = choose|k: int|
                        0 <= k < self@.accounts.len() && #[trigger] self@.accounts[k].id == id@;
                    assert(k == i as int);
                }
                Some(a)
            },
            None => None,
        }
    }

    /// Remove an account. Every mapping referencing it goes first, so a
    /// mapping can never outlive its account by this operation.
    pub fn remove_account(&mut self, account_id: &str)
        requires
            old(self).wf(),
        ensures
            final(self).wf(),
            final(self)@.mappings == mappings_without_account(old(self)@.mappings, account_id@),
            final(self)@.accounts == accounts_without_id(old(self)@.accounts, account_id@),
    {
        let ghost m0 = self@.mappings;
        let ghost s0 = self@.accounts;
        let mut kept_m: Vec<RepositoryMapping> = Vec::new();
        let mut i: usize = 0;
        while i < self.mappings.len()
            invariant
                i <= self.mappings.len(),
                self.mappings.deep_view() == m0,
                kept_m.deep_view() == mappings_without_account(m0.take(i as int), account_id@),
            decreases self.mappings.len() - i,
        {
            let m = &self.mappings[i];
            if !str_eq(m.account_id.as_str(), account_id) {
                kept_m.push(clone_mapping(m));
            }
            proof {
                let pref = m0.take(i + 1);
                assert(pref.drop_last() =~= m0.take(i as int));
                assert(pref.last() == m0[i as int]);
                assert(kept_m.deep_view() =~= mappings_without_account(pref, account_id@));
            }
            i += 1;
        }
        proof {
            assert(m0.take(m0.len() as int) =~= m0);
        }
        self.mappings = kept_m;
        let mut kept_a: Vec<Account> = Vec::new();
        let mut k: usize = 0;
        while k < self.accounts.len()
            invariant
                k <= self.accounts.len(),
                self.accounts.deep_view() == s0,
                kept_a.deep_view() == accounts_without_id(s0.take(k as int), account_id@),
            decreases self.accounts.len() - k,
        {
            let a = &self.accounts[k];
            if !str_eq(a.id.as_str(), account_id) {
                kept_a.push(clone_account(a));
            }
            proof {
                let pref = s0.take(k + 1);
                assert(pref.drop_last() =~= s0.take(k as int));
                assert(pref.last() == s0[k as int]);
                assert(kept_a.deep_view() =~= accounts_without_id(pref, account_id@));
            }
            k += 1;
        }
        proof {
            assert(s0.take(s0.len() as int) =~= s0);
        }
        self.accounts = kept_a;
        proof {
            lemma_mappings_without_account_props(m0, account_id@);
            lemma_accounts_without_id_props(s0, account_id@);
        }
    }

    /// Remember `remote_url` as belonging to `account_id`, replacing any
    /// existing mapping for that exact URL.
    pub fn set_repository_mapping(&mut self, remote_url: &str, account_id: &str, remember: bool)
        requires
            old(self).wf(),
        ensures
            final(self).wf(),
            final(self)@.accounts == old(self)@.accounts,
            exists|id: Seq<char>, ts: int|
                final(self)@ == #[trigger] with_mapping(
                    old(self)@,
                    remote_url@,
                    account_id@,
                    remember,
                    id,
                    ts,
                ),
    {
        let ghost m0 = self@.mappings;
        let mut kept: Vec<RepositoryMapping> = Vec::new();
        let mut i: usize = 0;
        while i < self.mappings.len()
            invariant
                i <= self.mappings.len(),
                self.mappings.deep_view() == m0,
                kept.deep_view() == mappings_without_url(m0.take(i as int), remote_url@),
            decreases self.mappings.len() - i,
        {
            let m = &self.mappings[i];
            if !str_eq(m.remote_url.as_str(), remote_url) {
                kept.push(clone_mapping(m));
            }
            proof {
                let pref = m0.take(i + 1);
                assert(pref.drop_last() =~= m0.take(i as int));
                assert(pref.last() == m0[i as int]);
                assert(kept.deep_view() =~= mappings_without_url(pref, remote_url@));
            }
            i += 1;
        }
        proof {
            assert(m0.take(m0.len() as int) =~= m0);
        }
        let mapping = RepositoryMapping {
            id: fresh_id(),
            remote_url: remote_url.to_owned(),
            account_id: account_id.to_owned(),
            remember: remember,
            created_at: now_timestamp(),
        };
        let ghost mv = mapping@;
        kept.push(mapping);
        self.mappings = kept;
        proof {
            assert(self@.mappings =~= mappings_without_url(m0, remote_url@).push(mv));
            assert(self@ == with_mapping(
                old(self)@,
                remote_url@,
                account_id@,
                remember,
                mv.id,
                mv.created_at,
            ));
            lemma_mappings_without_url_props(m0, remote_url@);
            let fm = mappings_without_url(m0, remote_url@);
            assert forall|x: int, y: int|
                0 <= x < y < self@.mappings.len() implies #[trigger] self@.mappings[x].remote_url
                != #[trigger] self@.mappings[y].remote_url by {
                if y < fm.len() {
                    assert(self@.mappings[x] == fm[x] && self@.mappings[y] == fm[y]);
                } else {
                    assert(self@.mappings[x] == fm[x]);
                }
            }
        }
    }

    /// The mapping remembered for exactly `remote_url`, if any.
    pub fn get_repository_mapping(&self, remote_url: &str) -> (r: Option<RepositoryMapping>)
        requires
            self.wf(),
        ensures
            match r {
                Some(m) => has_mapping_for(self@.mappings, remote_url@) && m@ == mapping_for(
                    self@.mappings,
                    remote_url@,
                ),
                None => !has_mapping_for(self@.mappings, remote_url@),
            },
    {
        let mut i: usize = 0;
        while i < self.mappings.len()
            invariant
                self.wf(),
                i <= self.mappings.len(),
                forall|j: int| 0 <= j < i ==> self@.mappings[j].remote_url != remote_url@,
            decreases self.mappings.len() - i,
        {
            if str_eq(self.mappings[i].remote_url.as_str(), remote_url) {
                let m = clone_mapping(&self.mappings[i]);
                proof {
                    assert(self@.mappings[i as int] == self.mappings@[i as int]@);
                    assert(self@.mappings[i as int].remote_url == remote_url@);
                    assert(has_mapping_for(self@.mappings, remote_url@));
                    let k = choose|k: int|
                        0 <= k < self@.mappings.len() && #[trigger] self@.mappings[k].remote_url
                            == remote_url@;
                    assert(k == i as int);
                }
                return Some(m);
            }
            i += 1;
        }
        None
    }

    /// All remembered mappings, in storage order.
    pub fn get_repository_mappings(&self) -> (r: Vec<RepositoryMapping>)
        ensures
            r.deep_view() == self@.mappings,
    {
        let mut r: Vec<RepositoryMapping> = Vec::new();
        let mut i: usize = 0;
        while i < self.mappings.len()
            invariant
                i <= self.mappings.len(),
                r.deep_view() == self.mappings.deep_view().take(i as int),
            decreases self.mappings.len() - i,
        {
            proof {
                assert(self.mappings.deep_view().len() == self.mappings@.len());
                assert(self.mappings.deep_view().take(i as int).len() == i as int);
                assert(r@.len() == i as int);
            }
            r.push(clone_mapping(&self.mappings[i]));
            proof {
                assert(r.deep_view() =~= self.mappings.deep_view().take(i + 1));
            }
            i += 1;
        }
        proof {
            assert(self.mappings.deep_view().take(self.mappings.len() as int) =~= self@.mappings);
        }
        r
    }

    /// Forget the mapping carrying the given identifier.
    pub fn remove_repository_mapping(&mut self, mapping_id: &str)
        requires
            old(self).wf(),
        ensures
            final(self).wf(),
            final(self)@.accounts == old(self)@.accounts,
            final(self)@.mappings == mappings_without_id(old(self)@.mappings, mapping_id@),
    {
        let ghost m0 = self@.mappings;
        let mut kept: Vec<RepositoryMapping> = Vec::new();
        let mut i: usize = 0;
        while i < self.mappings.len()
            invariant
                i <= self.mappings.len(),
                self.mappings.deep_view() == m0,
                kept.deep_view() == mappings_without_id(m0.take(i as int), mapping_id@),
            decreases self.mappings.len() - i,
        {
            let m = &self.mappings[i];
            if !str_eq(m.id.as_str(), mapping_id) {
                kept.push(clone_mapping(m));
            }
            proof {
                let pref = m0.take(i + 1);
                assert(pref.drop_last() =~= m0.take(i as int));
                assert(pref.last() == m0[i as int]);
                assert(kept.deep_view() =~= mappings_without_id(pref, mapping_id@));
            }
            i += 1;
        }
        proof {
            assert(m0.take(m0.len() as int) =~= m0);
        }
        self.mappings = kept;
        proof {
            lemma_mappings_without_id_props(m0, mapping_id@);
        }
    }
}

} // verus!

//! Persisted installation records: one per workspace per enterprise
//! grouping.
//!
//! A record is keyed by its team id together with its optional enterprise
//! id; the absent enterprise id is part of the key itself, not a sentinel
//! string, so no real enterprise id can collide with it.

use vstd::prelude::*;
use vstd::string::StringExecFns;
use crate::error::SlackError;

verus! {

/// One workspace's granted tokens and scopes.
pub struct Installation {
    pub team_id: String,
    pub enterprise_id: Option<String>,
    pub bot_token: Option<String>,
    pub bot_user_id: Option<String>,
    pub user_token: Option<String>,
    pub user_id: Option<String>,
    pub scopes: Vec<String>,
    pub user_scopes: Vec<String>,
    pub installed_at: i64,
    pub expires_at: Option<i64>,
}

/// Specification-level form of [`Installation`].
pub struct InstallModel {
    pub team_id: Seq<char>,
    pub enterprise_id: Option<Seq<char>>,
    pub bot_token: Option<Seq<char>>,
    pub bot_user_id: Option<Seq<char>>,
    pub user_token: Option<Seq<char>>,
    pub user_id: Option<Seq<char>>,
    pub scopes: Seq<Seq<char>>,
    pub user_scopes: Seq<Seq<char>>,
    pub installed_at: i64,
    pub expires_at: Option<i64>,
}

impl View for Installation {
    type V = InstallModel;

    open spec fn view(&self) -> InstallModel {
        InstallModel {
            team_id: self.team_id@,
            enterprise_id: self.enterprise_id.deep_view(),
            bot_token: self.bot_token.deep_view(),
            bot_user_id: self.bot_user_id.deep_view(),
            user_token: self.user_token.deep_view(),
            user_id: self.user_id.deep_view(),
            scopes: self.scopes.deep_view(),
            user_scopes: self.user_scopes.deep_view(),
            installed_at: self.installed_at,
            expires_at: self.expires_at,
        }
    }
}

impl DeepView for Installation {
    type V = InstallModel;

    open spec fn deep_view(&self) -> InstallModel {
        self.view()
    }
}

/// The storage key of a record: team id and optional enterprise id.
pub open spec fn install_key(m: InstallModel) -> (Seq<char>, Option<Seq<char>>) {
    (m.team_id, m.enterprise_id)
}

impl Installation {
    /// A bare record for one team, installed at `now`, with no tokens and
    /// no scopes.
    pub fn new(team_id: String, now: i64) -> (r: Installation)
        ensures
            r@.team_id == team_id@,
            r@.enterprise_id is None,
            r@.bot_token is None,
            r@.bot_user_id is None,
            r@.user_token is None,
            r@.user_id is None,
            r@.scopes == Seq::<Seq<char>>::empty(),
            r@.user_scopes == Seq::<Seq<char>>::empty(),
            r@.installed_at == now,
            r@.expires_at is None,
    {
        let r = Installation {
            team_id,
            enterprise_id: None,
            bot_token: None,
            bot_user_id: None,
            user_token: None,
            user_id: None,
            scopes: Vec::new(),
            user_scopes: Vec::new(),
            installed_at: now,
            expires_at: None,
        };
        proof {
            assert(r@.scopes =~= Seq::<Seq<char>>::empty());
            assert(r@.user_scopes =~= Seq::<Seq<char>>::empty());
        }
        r
    }

    /// The same record carrying a bot token and its bot user id.
    pub fn with_bot_token(self, token: String, user_id: String) -> (r: Installation)
        ensures
            r@ == (InstallModel {
                bot_token: Some(token@),
                bot_user_id: Some(user_id@),
                ..self@
            }),
    {
        Installation { bot_token: Some(token), bot_user_id: Some(user_id), ..self }
    }

    /// The same record carrying a user token and its user id.
    pub fn with_user_token(self, token: String, user_id: String) -> (r: Installation)
        ensures
            r@ == (InstallModel { user_token: Some(token@), user_id: Some(user_id@), ..self@ }),
    {
        Installation { user_token: Some(token), user_id: Some(user_id), ..self }
    }

    /// The same record with these granted bot scopes.
    pub fn with_scopes(self, scopes: Vec<String>) -> (r: Installation)
        ensures
            r@ == (InstallModel { scopes: scopes.deep_view(), ..self@ }),
    {
        Installation { scopes, ..self }
    }

    /// The same record with these granted user scopes.
    pub fn with_user_scopes(self, user_scopes: Vec<String>) -> (r: Installation)
        ensures
            r@ == (InstallModel { user_scopes: user_scopes.deep_view(), ..self@ }),
    {
        Installation { user_scopes, ..self }
    }

    /// The same record grouped under an enterprise.
    pub fn with_enterprise_id(self, enterprise_id: String) -> (r: Installation)
        ensures
            r@ == (InstallModel { enterprise_id: Some(enterprise_id@), ..self@ }),
    {
        Installation { enterprise_id: Some(enterprise_id), ..self }
    }

    /// Whether the record has expired at `now`; a record without an expiry
    /// never expires.
    pub fn is_expired(&self, now: i64) -> (r: bool)
        ensures
            r == (self@.expires_at matches Some(e) && e < now),
    {
        match self.expires_at {
            Some(e) => e < now,
            None => false,
        }
    }
}

/// A pluggable store of installation records, modeled as a map from
/// (team id, optional enterprise id) to record. Implementations outside
/// this crate are trusted to meet these contracts.
pub trait InstallationStore {
    /// The records the store holds, by storage key.
    spec fn installs(&self) -> Map<(Seq<char>, Option<Seq<char>>), InstallModel>;

    /// Persists a record under its key, overwriting any previous record for
    /// that workspace.
    fn save(&mut self, installation: &Installation) -> (r: core::result::Result<(), SlackError>)
        ensures
            r is Ok ==> final(self).installs() == old(self).installs().insert(
                install_key(installation@),
                installation@,
            ),
            r is Err ==> final(self).installs() == old(self).installs(),
    ;

    /// Looks up the record for a workspace.
    fn find_by_team(&self, team_id: &str, enterprise_id: Option<&str>) -> (r:
        core::result::Result<Option<Installation>, SlackError>)
        ensures
            r matches Ok(Some(inst)) ==> self.installs().contains_key(
                (team_id@, enterprise_id.deep_view()),
            ) && self.installs()[(team_id@, enterprise_id.deep_view())] == inst@,
            r matches Ok(o) && o is None ==> !self.installs().contains_key(
                (team_id@, enterprise_id.deep_view()),
            ),
    ;

    /// Deletes the record for a workspace; deleting an absent record is not
    /// an error.
    fn delete(&mut self, team_id: &str, enterprise_id: Option<&str>) -> (r:
        core::result::Result<(), SlackError>)
        ensures
            r is Ok ==> final(self).installs() == old(self).installs().remove(
                (team_id@, enterprise_id.deep_view()),
            ),
            r is Err ==> final(self).installs() == old(self).installs(),
    ;
}

/// The bot token of a workspace's installation, if one is stored.
pub fn find_bot_token<S: InstallationStore>(
    store: &S,
    team_id: &str,
    enterprise_id: Option<&str>,
) -> (r: core::result::Result<Option<String>, SlackError>)
    ensures
        r matches Ok(Some(t)) ==> store.installs().contains_key(
            (team_id@, enterprise_id.deep_view()),
        ) && store.installs()[(team_id@, enterprise_id.deep_view())].bot_token == Some(t@),
        r matches Ok(o) && o is None ==> !store.installs().contains_key(
            (team_id@, enterprise_id.deep_view()),
        ) || store.installs()[(team_id@, enterprise_id.deep_view())].bot_token is None,
{
    match store.find_by_team(team_id, enterprise_id) {
        Ok(Some(inst)) => Ok(inst.bot_token),
        Ok(None) => Ok(None),
        Err(e) => Err(e),
    }
}

/// The user token of a workspace's installation, if one is stored for
/// exactly this user.
pub fn find_user_token<S: InstallationStore>(
    store: &S,
    team_id: &str,
    user_id: &str,
    enterprise_id: Option<&str>,
) -> (r: core::result::Result<Option<String>, SlackError>)
    ensures
        r matches Ok(Some(t)) ==> store.installs().contains_key(
            (team_id@, enterprise_id.deep_view()),
        ) && store.installs()[(team_id@, enterprise_id.deep_view())].user_token == Some(t@)
            && store.installs()[(team_id@, enterprise_id.deep_view())].user_id == Some(user_id@),
        r matches Ok(o) && o is None ==> !store.installs().contains_key(
            (team_id@, enterprise_id.deep_view()),
        ) || store.installs()[(team_id@, enterprise_id.deep_view())].user_id != Some(user_id@)
            || store.installs()[(team_id@, enterprise_id.deep_view())].user_token is None,
{
    match store.find_by_team(team_id, enterprise_id) {
        Ok(Some(inst)) => {
            let matches_user = match &inst.user_id {
                Some(u) => {
                    let q = String::from_str(user_id);
                    *u == q
                },
                None => false,
            };
            if matches_user {
                Ok(inst.user_token)
            } else {
                Ok(None)
            }
        },
        Ok(None) => Ok(None),
        Err(e) => Err(e),
    }
}


/// The key-to-record map denoted by a record sequence: a later record
/// overwrites an earlier one with the same key.
pub open spec fn install_map_of(v: Seq<Installation>) -> Map<
    (Seq<char>, Option<Seq<char>>),
    InstallModel,
>
    decreases v.len(),
{
    if v.len() == 0 {
        Map::empty()
    } else {
        install_map_of(v.drop_last()).insert(install_key(v.last()@), v.last()@)
    }
}

/// No two records share a storage key.
pub open spec fn unique_keys(v: Seq<Installation>) -> bool {
    forall|i: int, j: int|
        0 <= i < j < v.len() ==> #[trigger] install_key(v[i]@) != #[trigger] install_key(v[j]@)
}

/// Over unique records, the map contains exactly the records' keys and maps
/// each key to its record.
proof fn lemma_install_map_of_unique(v: Seq<Installation>)
    requires
        unique_keys(v),
    ensures
        forall|k: (Seq<char>, Option<Seq<char>>)|
            install_map_of(v).contains_key(k) <==> exists|i: int|
                0 <= i < v.len() && #[trigger] install_key(v[i]@) == k,
        forall|i: int|
            0 <= i < v.len() ==> install_map_of(v).contains_key(
                #[trigger] install_key(v[i]@),
            ) && install_map_of(v)[install_key(v[i]@)] == v[i]@,
    decreases v.len(),
{
    if v.len() > 0 {
        let pre = v.drop_last();
        lemma_install_map_of_unique(pre);
        assert forall|i: int|
            0 <= i < v.len() implies install_map_of(v).contains_key(
            #[trigger] install_key(v[i]@),
        ) && install_map_of(v)[install_key(v[i]@)] == v[i]@ by {
            if i < v.len() - 1 {
                assert(pre[i] == v[i]);
                assert(install_key(v[i]@) != install_key(v.last()@));
            }
        }
        assert forall|k: (Seq<char>, Option<Seq<char>>)|
            install_map_of(v).contains_key(k) implies exists|i: int|
            0 <= i < v.len() && #[trigger] install_key(v[i]@) == k by {
            if k != install_key(v.last()@) {
                assert(install_map_of(pre).contains_key(k));
                assert(exists|i: int| 0 <= i < pre.len() && #[trigger] install_key(pre[i]@) == k);
                let i = choose|i: int|
                    0 <= i < pre.len() && #[trigger] install_key(pre[i]@) == k;
                assert(pre[i] == v[i]);
                assert(install_key(v[i]@) == k);
            } else {
                assert(install_key(v[v.len() - 1]@) == k);
            }
        }
    }
}

/// An owned copy of a string vector.
pub fn dup_strings(v: &Vec<String>) -> (r: Vec<String>)
    ensures
        r.deep_view() == v.deep_view(),
{
    let n = v.len();
    let mut r: Vec<String> = Vec::new();
    let mut i: usize = 0;
    while i < n
        invariant
            n == v@.len(),
            i <= n,
            r@.len() == i,
            forall|j: int| 0 <= j < i ==> #[trigger] r@[j]@ == v@[j]@,
        decreases n - i,
    {
        r.push(v[i].clone());
        i = i + 1;
    }
    proof {
        assert(r.deep_view() =~= v.deep_view());
    }
    r
}

/// An owned copy of an optional string.
fn dup_opt_string(v: &Option<String>) -> (r: Option<String>)
    ensures
        r.deep_view() == v.deep_view(),
{
    match v {
        Some(x) => Some(x.clone()),
        None => None,
    }
}

/// An owned copy of a record.
fn dup_installation(s: &Installation) -> (r: Installation)
    ensures
        r@ == s@,
{
    Installation {
        team_id: s.team_id.clone(),
        enterprise_id: dup_opt_string(&s.enterprise_id),
        bot_token: dup_opt_string(&s.bot_token),
        bot_user_id: dup_opt_string(&s.bot_user_id),
        user_token: dup_opt_string(&s.user_token),
        user_id: dup_opt_string(&s.user_id),
        scopes: dup_strings(&s.scopes),
        user_scopes: dup_strings(&s.user_scopes),
        installed_at: s.installed_at,
        expires_at: s.expires_at,
    }
}

/// Whether a stored optional enterprise id equals a supplied one.
fn opt_key_eq(a: &Option<String>, b: &Option<&str>) -> (r: bool)
    ensures
        r == (a.deep_view() == b.deep_view()),
{
    match (a, b) {
        (Some(x), Some(y)) => {
            let q = String::from_str(*y);
            let e = *x == q;
            proof {
                if e {
                    assert(a.deep_view() =~~= b.deep_view());
                }
            }
            e
        },
        (None, None) => true,
        _ => {
            proof {
                assert(a.deep_view() != b.deep_view());
            }
            false
        },
    }
}

/// Whether a record is stored under the given key.
fn record_has_key(s: &Installation, team_id: &str, enterprise_id: &Option<&str>) -> (r: bool)
    ensures
        r == (install_key(s@) == (team_id@, enterprise_id.deep_view())),
{
    let tq = String::from_str(team_id);
    if s.team_id == tq {
        let e = opt_key_eq(&s.enterprise_id, enterprise_id);
        proof {
            if e {
                assert(install_key(s@) == (team_id@, enterprise_id.deep_view()));
            }
        }
        e
    } else {
        false
    }
}

/// The records of `v` whose key differs from the given one.
fn installs_without(v: &Vec<Installation>, team_id: &str, enterprise_id: Option<&str>) -> (r:
    Vec<Installation>)
    ensures
        install_map_of(r@) == install_map_of(v@).remove((team_id@, enterprise_id.deep_view())),
        forall|t: int|
            0 <= t < r@.len() ==> #[trigger] install_key(r@[t]@) != (
                team_id@,
                enterprise_id.deep_view(),
            ),
        unique_keys(v@) ==> unique_keys(r@),
{
    let n = v.len();
    let ghost key = (team_id@, enterprise_id.deep_view());
    let mut r: Vec<Installation> = Vec::new();
    let ghost mut idxs: Seq<int> = Seq::empty();
    let mut i: usize = 0;
    proof {
        assert(v@.subrange(0, 0) =~= Seq::<Installation>::empty());
        assert(install_map_of(r@) =~= install_map_of(v@.subrange(0, 0)).remove(key));
    }
    while i < n
        invariant
            n == v@.len(),
            i <= n,
            key == (team_id@, enterprise_id.deep_view()),
            install_map_of(r@) == install_map_of(v@.subrange(0, i as int)).remove(key),
            forall|t: int| 0 <= t < r@.len() ==> #[trigger] install_key(r@[t]@) != key,
            idxs.len() == r@.len(),
            forall|t: int|
                0 <= t < r@.len() ==> 0 <= #[trigger] idxs[t] < i && r@[t]@ == v@[idxs[t]]@,
            forall|a: int, b: int| 0 <= a < b < idxs.len() ==> idxs[a] < idxs[b],
        decreases n - i,
    {
        let ghost pre = v@.subrange(0, i as int);
        let ghost prex = v@.subrange(0, i + 1);
        proof {
            assert(prex.drop_last() =~= pre);
            assert(prex.last() == v@[i as int]);
        }
        if record_has_key(&v[i], team_id, &enterprise_id) {
            proof {
                assert(install_map_of(prex).remove(key) =~= install_map_of(pre).remove(key));
            }
        } else {
            let d = dup_installation(&v[i]);
            let ghost rold = r@;
            r.push(d);
            proof {
                idxs = idxs.push(i as int);
                assert(r@.drop_last() =~= rold);
                assert(install_map_of(r@) == install_map_of(rold).insert(
                    install_key(r@.last()@),
                    r@.last()@,
                ));
                assert(install_map_of(r@) =~= install_map_of(prex).remove(key));
            }
        }
        i = i + 1;
    }
    proof {
        assert(v@.subrange(0, n as int) =~= v@);
        if unique_keys(v@) {
            assert forall|a: int, b: int|
                0 <= a < b < r@.len() implies #[trigger] install_key(r@[a]@)
                != #[trigger] install_key(r@[b]@) by {
                assert(r@[a]@ == v@[idxs[a]]@);
                assert(r@[b]@ == v@[idxs[b]]@);
            }
        }
    }
    r
}

/// An in-memory installation store; the reference implementation of
/// [`InstallationStore`], suited to tests and single-process deployments.
pub struct MemoryInstallationStore {
    entries: Vec<Installation>,
}

impl MemoryInstallationStore {
    /// No two stored records share a key.
    #[verifier::type_invariant]
    closed spec fn wf(self) -> bool {
        unique_keys(self.entries@)
    }

    /// An empty store.
    pub fn new() -> (r: MemoryInstallationStore)
        ensures
            r.installs() == Map::<(Seq<char>, Option<Seq<char>>), InstallModel>::empty(),
    {
        let r = MemoryInstallationStore { entries: Vec::new() };
        proof {
            assert(r.entries@ =~= Seq::<Installation>::empty());
        }
        r
    }
}

impl InstallationStore for MemoryInstallationStore {
    closed spec fn installs(&self) -> Map<(Seq<char>, Option<Seq<char>>), InstallModel> {
        install_map_of(self.entries@)
    }

    fn save(&mut self, installation: &Installation) -> (r: core::result::Result<(), SlackError>) {
        proof {
            use_type_invariant(&*self);
        }
        let ent: Option<&str> = match &installation.enterprise_id {
            Some(e) => Some(e.as_str()),
            None => None,
        };
        proof {
            assert(ent.deep_view() =~~= installation@.enterprise_id);
        }
        let mut kept = installs_without(&self.entries, installation.team_id.as_str(), ent);
        let ghost kold = kept@;
        let d = dup_installation(installation);
        kept.push(d);
        proof {
            assert(kept@.drop_last() =~= kold);
            assert(install_map_of(kept@) == install_map_of(kold).insert(
                install_key(kept@.last()@),
                kept@.last()@,
            ));
            assert(install_map_of(kept@) =~= install_map_of(self.entries@).insert(
                install_key(installation@),
                installation@,
            ));
        }
        *self = MemoryInstallationStore { entries: kept };
        Ok(())
    }

    fn find_by_team(&self, team_id: &str, enterprise_id: Option<&str>) -> (r:
        core::result::Result<Option<Installation>, SlackError>) {
        proof {
            use_type_invariant(self);
            lemma_install_map_of_unique(self.entries@);
        }
        let n = self.entries.len();
        let mut i: usize = 0;
        while i < n
            invariant
                n == self.entries@.len(),
                i <= n,
                forall|j: int|
                    0 <= j < i ==> #[trigger] install_key(self.entries@[j]@) != (
                        team_id@,
                        enterprise_id.deep_view(),
                    ),
                forall|j: int|
                    0 <= j < n ==> self.installs().contains_key(
                        #[trigger] install_key(self.entries@[j]@),
                    ) && self.installs()[install_key(self.entries@[j]@)] == self.entries@[j]@,
                forall|k: (Seq<char>, Option<Seq<char>>)|
                    self.installs().contains_key(k) ==> exists|j: int|
                        0 <= j < n && #[trigger] install_key(self.entries@[j]@) == k,
            decreases n - i,
        {
            if record_has_key(&self.entries[i], team_id, &enterprise_id) {
                let d = dup_installation(&self.entries[i]);
                proof {
                    assert(self.installs().contains_key((team_id@, enterprise_id.deep_view())));
                    assert(self.installs()[(team_id@, enterprise_id.deep_view())]
                        == self.entries@[i as int]@);
                }
                return Ok(Some(d));
            }
            i = i + 1;
        }
        Ok(None)
    }

    fn delete(&mut self, team_id: &str, enterprise_id: Option<&str>) -> (r:
        core::result::Result<(), SlackError>) {
        proof {
            use_type_invariant(&*self);
        }
        let kept = installs_without(&self.entries, team_id, enterprise_id);
        *self = MemoryInstallationStore { entries: kept };
        Ok(())
    }
}

} // verus!

//! Anti-forgery state tokens for the OAuth installation flow.
//!
//! A state record is single-use and time-limited: issued with a ten-minute
//! lifetime, consumed exactly once by verify-then-delete, and deleted on any
//! terminal outcome so that no token is ever accepted twice.

use vstd::prelude::*;
use vstd::string::StringExecFns;
use crate::error::SlackError;

verus! {

/// Lifetime of a state token, in seconds.
pub const STATE_TTL_SECONDS: i64 = 600;

/// One anti-forgery state record.
pub struct OAuthState {
    pub state: String,
    pub redirect_uri: Option<String>,
    pub created_at: i64,
    pub expires_at: i64,
}

/// Specification-level form of [`OAuthState`].
pub struct StateModel {
    pub state: Seq<char>,
    pub redirect_uri: Option<Seq<char>>,
    pub created_at: i64,
    pub expires_at: i64,
}

impl View for OAuthState {
    type V = StateModel;

    open spec fn view(&self) -> StateModel {
        StateModel {
            state: self.state@,
            redirect_uri: self.redirect_uri.deep_view(),
            created_at: self.created_at,
            expires_at: self.expires_at,
        }
    }
}

impl DeepView for OAuthState {
    type V = StateModel;

    open spec fn deep_view(&self) -> StateModel {
        self.view()
    }
}

/// A fresh random token.
///
/// Relies on `uuid::Uuid::new_v4` and its hyphenated `Display` form: the
/// text is always 36 characters; the value is random, so nothing else is
/// assumed of it.
#[verifier::external_body]
pub fn new_state_token() -> (r: String)
    ensures
        r@.len() == 36,
{
    uuid::Uuid::new_v4().to_string()
}

/// The wall clock, as Unix seconds.
///
/// Relies on `chrono::Utc::now` and `DateTime::timestamp`: the representable
/// range of a `chrono` datetime keeps the value within ten trillion seconds
/// of the epoch; beyond that, nothing is assumed of the current time.
#[verifier::external_body]
pub fn current_unix_seconds() -> (r: i64)
    ensures
        -10_000_000_000_000 <= r <= 10_000_000_000_000,
{
    chrono::Utc::now().timestamp()
}

impl OAuthState {
    /// A record with the given token, issued at `now` and expiring one
    /// lifetime later.
    pub fn issue(state: String, now: i64) -> (r: OAuthState)
        requires
            now <= i64::MAX - STATE_TTL_SECONDS,
        ensures
            r@.state == state@,
            r@.redirect_uri is None,
            r@.created_at == now,
            r@.expires_at == now + STATE_TTL_SECONDS,
    {
        OAuthState { state, redirect_uri: None, created_at: now, expires_at: now + 600 }
    }

    /// A record with a fresh random token, issued at the current time.
    pub fn new() -> (r: OAuthState)
        ensures
            r@.state.len() == 36,
            r@.redirect_uri is None,
            r@.expires_at == r@.created_at + STATE_TTL_SECONDS,
    {
        let token = new_state_token();
        let now = current_unix_seconds();
        OAuthState::issue(token, now)
    }

    /// The same record bound to a redirect URI.
    pub fn with_redirect_uri(self, uri: String) -> (r: OAuthState)
        ensures
            r@.state == self@.state,
            r@.redirect_uri matches Some(u) && u == uri@,
            r@.created_at == self@.created_at,
            r@.expires_at == self@.expires_at,
    {
        OAuthState {
            state: self.state,
            redirect_uri: Some(uri),
            created_at: self.created_at,
            expires_at: self.expires_at,
        }
    }

    /// Whether the record has expired at time `now`.
    pub fn is_expired(&self, now: i64) -> (r: bool)
        ensures
            r == (self@.expires_at < now),
    {
        self.expires_at < now
    }

    /// Whether the record is live at `now` and carries exactly this token.
    pub fn is_valid(&self, state: &str, now: i64) -> (r: bool)
        ensures
            r == (!(self@.expires_at < now) && self@.state == state@),
    {
        if self.expires_at < now {
            return false;
        }
        let supplied = String::from_str(state);
        self.state == supplied
    }
}

/// What consuming a token does to a store: an absent token changes nothing
/// and yields nothing; a present token is deleted either way, and yields
/// its record only if the record is live and carries exactly that token.
pub open spec fn consume_spec(
    m: Map<Seq<char>, StateModel>,
    token: Seq<char>,
    now: i64,
) -> (Map<Seq<char>, StateModel>, Option<StateModel>) {
    if !m.contains_key(token) {
        (m, None)
    } else if m[token].expires_at < now || m[token].state != token {
        (m.remove(token), None)
    } else {
        (m.remove(token), Some(m[token]))
    }
}

/// The first half of the single-use law: consuming a token that was just
/// stored, is live, and matches its record succeeds, yields exactly that
/// record, and removes it.
pub proof fn state_start_then_consume(
    m: Map<Seq<char>, StateModel>,
    tok: Seq<char>,
    st: StateModel,
    now: i64,
)
    requires
        st.state == tok,
        !(st.expires_at < now),
    ensures
        consume_spec(m.insert(tok, st), tok, now).1 == Some(st),
        consume_spec(m.insert(tok, st), tok, now).0 == m.insert(tok, st).remove(tok),
{
}

/// The second half of the single-use law: once a token has been consumed —
/// successfully or not — consuming it again yields nothing, at any later
/// time.
pub proof fn state_single_use(
    m: Map<Seq<char>, StateModel>,
    token: Seq<char>,
    now: i64,
    later: i64,
)
    ensures
        consume_spec(consume_spec(m, token, now).0, token, later).1 is None,
{
}

/// The expiry law: a record whose expiry lies before `now` is rejected even
/// when the token matches exactly, and is deleted as a side effect.
pub proof fn state_expiry(m: Map<Seq<char>, StateModel>, token: Seq<char>, now: i64)
    requires
        m.contains_key(token),
        m[token].expires_at < now,
    ensures
        consume_spec(m, token, now).1 is None,
        consume_spec(m, token, now).0 == m.remove(token),
{
}

/// A pluggable store of state records, modeled as a map from token to
/// record. Implementations outside this crate (network-backed stores) are
/// trusted to meet these contracts.
pub trait StateStore {
    /// The records the store holds, keyed by token.
    spec fn states(&self) -> Map<Seq<char>, StateModel>;

    /// Persists a record under its token, overwriting any previous one.
    fn save(&mut self, state: &OAuthState) -> (r: core::result::Result<(), SlackError>)
        ensures
            r is Ok ==> final(self).states() == old(self).states().insert(
                state@.state,
                state@,
            ),
            r is Err ==> final(self).states() == old(self).states(),
    ;

    /// Looks up a record by token.
    fn find(&self, state: &str) -> (r: core::result::Result<Option<OAuthState>, SlackError>)
        ensures
            r matches Ok(Some(st)) ==> self.states().contains_key(state@)
                && self.states()[state@] == st@,
            r matches Ok(o) && o is None ==> !self.states().contains_key(state@),
    ;

    /// Deletes the record under a token; deleting an absent token is not an
    /// error.
    fn delete(&mut self, state: &str) -> (r: core::result::Result<(), SlackError>)
        ensures
            r is Ok ==> final(self).states() == old(self).states().remove(state@),
            r is Err ==> final(self).states() == old(self).states(),
    ;

    /// Removes expired records. A store may remove only some of them, but
    /// may never remove a live record and never changes a record it keeps.
    /// The returned count of removed records is informational; this
    /// contract does not bind it.
    fn cleanup_expired(&mut self, now: i64) -> (r: core::result::Result<u64, SlackError>)
        ensures
            forall|k: Seq<char>|
                #[trigger] final(self).states().contains_key(k)
                    ==> old(self).states().contains_key(k)
                    && final(self).states()[k] == old(self).states()[k],
            forall|k: Seq<char>|
                old(self).states().contains_key(k)
                    && !(#[trigger] final(self).states().contains_key(k))
                    ==> old(self).states()[k].expires_at < now,
    ;

    /// Verifies and consumes a token in one step: the record is deleted on
    /// every terminal outcome, and returned only when it was live and
    /// matching.
    fn verify_and_consume(&mut self, state: &str, now: i64) -> (r: core::result::Result<
        Option<OAuthState>,
        SlackError,
    >)
        ensures
            r matches Ok(o) ==> final(self).states() == consume_spec(
                old(self).states(),
                state@,
                now,
            ).0,
            r matches Ok(o) ==> o.deep_view() == consume_spec(
                old(self).states(),
                state@,
                now,
            ).1,
            r is Err ==> final(self).states() == old(self).states(),
    ;
}


/// The token-to-record map denoted by a record sequence: a later record
/// overwrites an earlier one with the same token.
pub open spec fn map_of(v: Seq<OAuthState>) -> Map<Seq<char>, StateModel>
    decreases v.len(),
{
    if v.len() == 0 {
        Map::empty()
    } else {
        map_of(v.drop_last()).insert(v.last()@.state, v.last()@)
    }
}

/// No two records share a token.
pub open spec fn unique_tokens(v: Seq<OAuthState>) -> bool {
    forall|i: int, j: int|
        0 <= i < j < v.len() ==> #[trigger] v[i]@.state != #[trigger] v[j]@.state
}

/// Over unique records, the map contains exactly the records' tokens and
/// maps each token to its record.
proof fn lemma_map_of_unique(v: Seq<OAuthState>)
    requires
        unique_tokens(v),
    ensures
        forall|k: Seq<char>|
            map_of(v).contains_key(k) <==> exists|i: int|
                0 <= i < v.len() && #[trigger] v[i]@.state == k,
        forall|i: int|
            0 <= i < v.len() ==> map_of(v).contains_key(#[trigger] v[i]@.state) && map_of(v)[
                v[i]@.state
            ] == v[i]@,
    decreases v.len(),
{
    if v.len() > 0 {
        let pre = v.drop_last();
        lemma_map_of_unique(pre);
        assert forall|i: int|
            0 <= i < v.len() implies map_of(v).contains_key(#[trigger] v[i]@.state) && map_of(
            v,
        )[v[i]@.state] == v[i]@ by {
            if i < v.len() - 1 {
                assert(pre[i] == v[i]);
                assert(v[i]@.state != v.last()@.state);
            }
        }
        assert forall|k: Seq<char>| map_of(v).contains_key(k) implies exists|i: int|
            0 <= i < v.len() && #[trigger] v[i]@.state == k by {
            if k != v.last()@.state {
                assert(map_of(pre).contains_key(k));
                assert(exists|i: int| 0 <= i < pre.len() && #[trigger] pre[i]@.state == k);
                let i = choose|i: int| 0 <= i < pre.len() && #[trigger] pre[i]@.state == k;
                assert(pre[i] == v[i]);
                assert(v[i]@.state == k);
            } else {
                assert(v[v.len() - 1]@.state == k);
            }
        }
    }
}

/// An owned copy of a record.
fn dup_state(s: &OAuthState) -> (r: OAuthState)
    ensures
        r@ == s@,
{
    OAuthState {
        state: s.state.clone(),
        redirect_uri: match &s.redirect_uri {
            Some(u) => Some(u.clone()),
            None => None,
        },
        created_at: s.created_at,
        expires_at: s.expires_at,
    }
}

/// The records of `v` whose token differs from `token`.
fn entries_without(v: &Vec<OAuthState>, token: &str) -> (r: Vec<OAuthState>)
    ensures
        map_of(r@) == map_of(v@).remove(token@),
        forall|t: int| 0 <= t < r@.len() ==> #[trigger] r@[t]@.state != token@,
        unique_tokens(v@) ==> unique_tokens(r@),
{
    let n = v.len();
    let tokq = String::from_str(token);
    let mut r: Vec<OAuthState> = Vec::new();
    let ghost mut idxs: Seq<int> = Seq::empty();
    let mut i: usize = 0;
    proof {
        assert(v@.subrange(0, 0) =~= Seq::<OAuthState>::empty());
        assert(map_of(r@) =~= map_of(v@.subrange(0, 0)).remove(token@));
    }
    while i < n
        invariant
            n == v@.len(),
            i <= n,
            tokq@ == token@,
            map_of(r@) == map_of(v@.subrange(0, i as int)).remove(token@),
            forall|t: int| 0 <= t < r@.len() ==> #[trigger] r@[t]@.state != token@,
            idxs.len() == r@.len(),
            forall|t: int|
                0 <= t < r@.len() ==> 0 <= #[trigger] idxs[t] < i && r@[t]@ == v@[idxs[t]]@,
            forall|a: int, b: int| 0 <= a < b < idxs.len() ==> idxs[a] < idxs[b],
        decreases n - i,
    {
        let ghost pre = v@.subrange(0, i as int);
        let ghost prex = v@.subrange(0, i + 1);
        proof {
            assert(prex.drop_last() =~= pre);
            assert(prex.last() == v@[i as int]);
        }
        if v[i].state == tokq {
            proof {
                assert(map_of(prex).remove(token@) =~= map_of(pre).remove(token@));
            }
        } else {
            let d = dup_state(&v[i]);
            let ghost rold = r@;
            r.push(d);
            proof {
                idxs = idxs.push(i as int);
                assert(r@.drop_last() =~= rold);
                assert(map_of(r@) == map_of(rold).insert(r@.last()@.state, r@.last()@));
                assert(map_of(r@) =~= map_of(prex).remove(token@));
            }
        }
        i = i + 1;
    }
    proof {
        assert(v@.subrange(0, n as int) =~= v@);
        if unique_tokens(v@) {
            assert forall|a: int, b: int|
                0 <= a < b < r@.len() implies #[trigger] r@[a]@.state
                != #[trigger] r@[b]@.state by {
                assert(r@[a]@ == v@[idxs[a]]@);
                assert(r@[b]@ == v@[idxs[b]]@);
            }
        }
    }
    r
}

/// An in-memory state store; the reference implementation of
/// [`StateStore`], suited to tests and single-process deployments.
pub struct MemoryStateStore {
    entries: Vec<OAuthState>,
}

impl MemoryStateStore {
    /// No two stored records share a token.
    #[verifier::type_invariant]
    closed spec fn wf(self) -> bool {
        unique_tokens(self.entries@)
    }

    /// An empty store.
    pub fn new() -> (r: MemoryStateStore)
        ensures
            r.states() == Map::<Seq<char>, StateModel>::empty(),
    {
        let r = MemoryStateStore { entries: Vec::new() };
        proof {
            assert(r.entries@ =~= Seq::<OAuthState>::empty());
        }
        r
    }

}

impl StateStore for MemoryStateStore {
    closed spec fn states(&self) -> Map<Seq<char>, StateModel> {
        map_of(self.entries@)
    }

    fn save(&mut self, state: &OAuthState) -> (r: core::result::Result<(), SlackError>) {
        proof {
            use_type_invariant(&*self);
        }
        let mut kept = entries_without(&self.entries, state.state.as_str());
        let ghost kold = kept@;
        let d = dup_state(state);
        kept.push(d);
        proof {
            assert(kept@.drop_last() =~= kold);
            assert(map_of(kept@) == map_of(kold).insert(kept@.last()@.state, kept@.last()@));
            assert(map_of(kept@) =~= map_of(self.entries@).insert(state@.state, state@));
        }
        *self = MemoryStateStore { entries: kept };
        Ok(())
    }

    fn find(&self, state: &str) -> (r: core::result::Result<Option<OAuthState>, SlackError>) {
        proof {
            use_type_invariant(self);
            lemma_map_of_unique(self.entries@);
        }
        let supplied = String::from_str(state);
        let n = self.entries.len();
        let mut i: usize = 0;
        while i < n
            invariant
                n == self.entries@.len(),
                i <= n,
                supplied@ == state@,
                forall|j: int| 0 <= j < i ==> #[trigger] self.entries@[j]@.state != state@,
                forall|j: int|
                    0 <= j < n ==> self.states().contains_key(
                        #[trigger] self.entries@[j]@.state,
                    ) && self.states()[self.entries@[j]@.state] == self.entries@[j]@,
                forall|k: Seq<char>|
                    self.states().contains_key(k) ==> exists|j: int|
                        0 <= j < n && #[trigger] self.entries@[j]@.state == k,
            decreases n - i,
        {
            if self.entries[i].state == supplied {
                let d = dup_state(&self.entries[i]);
                proof {
                    assert(self.entries@[i as int]@.state == state@);
                    assert(self.states().contains_key(state@));
                    assert(self.states()[state@] == self.entries@[i as int]@);
                }
                return Ok(Some(d));
            }
            i = i + 1;
        }
        Ok(None)
    }

    fn delete(&mut self, state: &str) -> (r: core::result::Result<(), SlackError>) {
        proof {
            use_type_invariant(&*self);
        }
        let kept = entries_without(&self.entries, state);
        *self = MemoryStateStore { entries: kept };
        Ok(())
    }

    fn cleanup_expired(&mut self, now: i64) -> (r: core::result::Result<u64, SlackError>) {
        proof {
            use_type_invariant(&*self);
            lemma_map_of_unique(self.entries@);
        }
        let ghost orig = self.entries@;
        let n = self.entries.len();
        let mut kept: Vec<OAuthState> = Vec::new();
        let ghost mut idxs: Seq<int> = Seq::empty();
        let mut removed: u64 = 0;
        let mut i: usize = 0;
        while i < n
            invariant
                n == orig.len(),
                orig == self.entries@,
                unique_tokens(orig),
                i <= n,
                removed <= i,
                idxs.len() == kept@.len(),
                forall|t: int|
                    0 <= t < kept@.len() ==> 0 <= #[trigger] idxs[t] < i && kept@[t]@ == orig[
                        idxs[t]
                    ]@,
                forall|a: int, b: int| 0 <= a < b < idxs.len() ==> idxs[a] < idxs[b],
                forall|t: int| 0 <= t < kept@.len() ==> !(#[trigger] kept@[t]@.expires_at < now),
                forall|j: int|
                    0 <= j < i && !(orig[j]@.expires_at < now) ==> exists|t: int|
                        0 <= t < kept@.len() && #[trigger] kept@[t]@ == orig[j]@,
            decreases n - i,
        {
            if self.entries[i].expires_at < now {
                removed = removed + 1;
            } else {
                let d = dup_state(&self.entries[i]);
                let ghost keptold = kept@;
                kept.push(d);
                proof {
                    idxs = idxs.push(i as int);
                    assert forall|j: int|
                        0 <= j < i + 1 && !(orig[j]@.expires_at < now) implies exists|t: int|
                        0 <= t < kept@.len() && #[trigger] kept@[t]@ == orig[j]@ by {
                        if j < i {
                            let t = choose|t: int|
                                0 <= t < keptold.len() && #[trigger] keptold[t]@ == orig[j]@;
                            assert(kept@[t]@ == orig[j]@);
                        } else {
                            assert(kept@[kept@.len() - 1]@ == orig[j]@);
                        }
                    }
                }
            }
            i = i + 1;
        }
        proof {
            assert forall|a: int, b: int|
                0 <= a < b < kept@.len() implies #[trigger] kept@[a]@.state
                != #[trigger] kept@[b]@.state by {
                assert(kept@[a]@ == orig[idxs[a]]@);
                assert(kept@[b]@ == orig[idxs[b]]@);
            }
            lemma_map_of_unique(kept@);
            assert forall|k: Seq<char>|
                #[trigger] map_of(kept@).contains_key(k) implies map_of(
                orig,
            ).contains_key(k) && map_of(kept@)[k] == map_of(orig)[k] by {
                let t = choose|t: int| 0 <= t < kept@.len() && #[trigger] kept@[t]@.state == k;
                assert(kept@[t]@ == orig[idxs[t]]@);
                assert(map_of(orig)[k] == orig[idxs[t]]@);
                assert(map_of(kept@)[k] == kept@[t]@);
            }
            assert forall|k: Seq<char>|
                map_of(orig).contains_key(k) && !(#[trigger] map_of(kept@).contains_key(
                    k,
                )) implies map_of(orig)[k].expires_at < now by {
                let j = choose|j: int| 0 <= j < orig.len() && #[trigger] orig[j]@.state == k;
                if !(orig[j]@.expires_at < now) {
                    let t = choose|t: int|
                        0 <= t < kept@.len() && #[trigger] kept@[t]@ == orig[j]@;
                    assert(map_of(kept@).contains_key(kept@[t]@.state));
                }
            }
        }
        *self = MemoryStateStore { entries: kept };
        Ok(removed)
    }

    fn verify_and_consume(&mut self, state: &str, now: i64) -> (r: core::result::Result<
        Option<OAuthState>,
        SlackError,
    >) {
        let found = match self.find(state) {
            Ok(o) => o,
            Err(e) => {
                return Err(e);
            },
        };
        match found {
            Some(record) => {
                if record.is_valid(state, now) {
                    match self.delete(state) {
                        Ok(()) => Ok(Some(record)),
                        Err(e) => Err(e),
                    }
                } else {
                    match self.delete(state) {
                        Ok(()) => Ok(None),
                        Err(e) => Err(e),
                    }
                }
            },
            None => Ok(None),
        }
    }
}

} // verus!

//! The session registry: the authoritative store of active sessions.
//!
//! The registry is a plain data structure; the surrounding application
//! guards it with its own exclusion mechanism and never holds that lock
//! across blocking work. It is generic over the backend conversation
//! handle `H`, an opaque capability the registry carries but never
//! inspects. Its mathematical value is a map from session identifier to
//! session record.

use vstd::prelude::*;

use tokio_util::sync::CancellationToken;

use crate::text::str_eq;

verus! {

/// One active session: its identifier, the backend conversation handle,
/// the options it was created with, and its cancellation controller.
pub struct SessionInfo<H> {
    pub id: String,
    pub session: H,
    pub model: Option<String>,
    pub system_prompt: Option<String>,
    /// Raised when the session is destroyed, so that any in-flight
    /// dispatch loop stops emitting events.
    pub cancel_token: CancellationToken,
}

/// The mathematical value of one registered session.
pub struct SessionRecord<H> {
    pub session: H,
    pub model: Option<Seq<char>>,
    pub system_prompt: Option<Seq<char>>,
    pub cancel_token: CancellationToken,
}

impl<H> View for SessionInfo<H> {
    type V = SessionRecord<H>;

    open spec fn view(&self) -> SessionRecord<H> {
        SessionRecord {
            session: self.session,
            model: self.model.deep_view(),
            system_prompt: self.system_prompt.deep_view(),
            cancel_token: self.cancel_token,
        }
    }
}

/// Whether no two entries share a session identifier.
pub open spec fn distinct_ids<H>(s: Seq<SessionInfo<H>>) -> bool {
    forall|i: int, j: int| 0 <= i < j < s.len() ==> (#[trigger] s[i].id@) != (#[trigger] s[j].id@)
}

/// The map an entry sequence denotes; later entries shadow earlier
/// ones, which never happens under `distinct_ids`.
pub open spec fn map_of<H>(s: Seq<SessionInfo<H>>) -> Map<Seq<char>, SessionRecord<H>>
    decreases s.len(),
{
    if s.len() == 0 {
        Map::empty()
    } else {
        map_of(s.drop_last()).insert(s.last().id@, s.last()@)
    }
}

proof fn lemma_map_of_contains<H>(s: Seq<SessionInfo<H>>, k: Seq<char>)
    ensures
        map_of(s).contains_key(k) <==> exists|i: int| 0 <= i < s.len() && (#[trigger] s[i].id@)
            == k,
    decreases s.len(),
{
    if s.len() > 0 {
        lemma_map_of_contains(s.drop_last(), k);
        if s.last().id@ == k {
            assert(s[s.len() - 1].id@ == k);
        } else if map_of(s).contains_key(k) {
            let i = choose|i: int| 0 <= i < s.drop_last().len() && (#[trigger] s.drop_last()[i].id@)
                == k;
            assert(s[i].id@ == k);
        } else if exists|i: int| 0 <= i < s.len() && (#[trigger] s[i].id@) == k {
            let i = choose|i: int| 0 <= i < s.len() && (#[trigger] s[i].id@) == k;
            assert(i < s.len() - 1);
            assert(s.drop_last()[i].id@ == k);
        }
    }
}

proof fn lemma_map_of_index<H>(s: Seq<SessionInfo<H>>, i: int)
    requires
        distinct_ids(s),
        0 <= i < s.len(),
    ensures
        map_of(s).contains_key(s[i].id@),
        map_of(s)[s[i].id@] == s[i]@,
    decreases s.len(),
{
    if i < s.len() - 1 {
        assert(s.drop_last()[i] == s[i]);
        lemma_map_of_index(s.drop_last(), i);
        assert(s[i].id@ != s.last().id@);
    }
}

proof fn lemma_map_of_remove<H>(s: Seq<SessionInfo<H>>, i: int)
    requires
        distinct_ids(s),
        0 <= i < s.len(),
    ensures
        map_of(s.remove(i)) =~= map_of(s).remove(s[i].id@),
    decreases s.len(),
{
    if i == s.len() - 1 {
        assert(s.remove(i) =~= s.drop_last());
        lemma_map_of_contains(s.drop_last(), s[i].id@);
        assert(forall|j: int|
            0 <= j < s.drop_last().len() ==> (#[trigger] s.drop_last()[j].id@) != s[i].id@);
        assert(!map_of(s.drop_last()).contains_key(s[i].id@));
        assert(map_of(s.remove(i)) =~= map_of(s).remove(s[i].id@));
    } else {
        let t = s.remove(i);
        assert(t.last() == s.last());
        assert(t.drop_last() =~= s.drop_last().remove(i));
        assert(s.drop_last()[i] == s[i]);
        lemma_map_of_remove(s.drop_last(), i);
        assert(s[i].id@ != s.last().id@);
        assert(map_of(t) =~= map_of(s).remove(s[i].id@));
    }
}

/// The registry of active sessions.
pub struct SessionRegistry<H> {
    entries: Vec<SessionInfo<H>>,
}

impl<H> View for SessionRegistry<H> {
    type V = Map<Seq<char>, SessionRecord<H>>;

    closed spec fn view(&self) -> Map<Seq<char>, SessionRecord<H>> {
        map_of(self.entries@)
    }
}

impl<H> SessionRegistry<H> {
    /// Whether the registry's entries are well formed: one entry per
    /// session identifier.
    pub closed spec fn wf(&self) -> bool {
        distinct_ids(self.entries@)
    }

    /// An empty registry.
    pub fn new() -> (r: Self)
        ensures
            r@ == Map::<Seq<char>, SessionRecord<H>>::empty(),
            r.wf(),
    {
        let r = SessionRegistry { entries: Vec::new() };
        proof {
            assert(r@ =~= Map::<Seq<char>, SessionRecord<H>>::empty());
        }
        r
    }

    /// Whether a session with this identifier is registered.
    pub fn contains(&self, id: &str) -> (r: bool)
        requires
            self.wf(),
        ensures
            r == self@.contains_key(id@),
    {
        let n = self.entries.len();
        let mut k: usize = 0;
        while k < n
            invariant
                0 <= k <= n,
                n == self.entries@.len(),
                forall|m: int| 0 <= m < k ==> (#[trigger] self.entries@[m].id@) != id@,
        decreases n - k,
        {
            if str_eq(self.entries[k].id.as_str(), id) {
                proof {
                    lemma_map_of_contains(self.entries@, id@);
                }
                return true;
            }
            k = k + 1;
        }
        proof {
            lemma_map_of_contains(self.entries@, id@);
        }
        false
    }

    /// Registers a new session under an identifier not registered yet.
    pub fn insert(&mut self, entry: SessionInfo<H>)
        requires
            old(self).wf(),
            !old(self)@.contains_key(entry.id@),
        ensures
            final(self).wf(),
            final(self)@ == old(self)@.insert(entry.id@, entry@),
    {
        proof {
            lemma_map_of_contains(self.entries@, entry.id@);
        }
        let ghost pre = self.entries@;
        self.entries.push(entry);
        proof {
            assert(self.entries@.drop_last() =~= pre);
            assert(forall|m: int| 0 <= m < pre.len() ==> (#[trigger] pre[m].id@) != self.entries@.last().id@);
        }
    }

    /// Looks a session up without removing it.
    pub fn get(&self, id: &str) -> (r: Option<&SessionInfo<H>>)
        requires
            self.wf(),
        ensures
            (match r {
                Some(e) => self@.contains_key(id@) && e@ == self@[id@] && e.id@ == id@,
                None => !self@.contains_key(id@),
            }),
    {
        let n = self.entries.len();
        let mut k: usize = 0;
        while k < n
            invariant
                0 <= k <= n,
                n == self.entries@.len(),
                self.wf(),
                forall|m: int| 0 <= m < k ==> (#[trigger] self.entries@[m].id@) != id@,
        decreases n - k,
        {
            if str_eq(self.entries[k].id.as_str(), id) {
                proof {
                    lemma_map_of_index(self.entries@, k as int);
                }
                return Some(&self.entries[k]);
            }
            k = k + 1;
        }
        proof {
            lemma_map_of_contains(self.entries@, id@);
        }
        None
    }

    /// Removes a session's entry, handing it back if it was there.
    pub fn remove_entry(&mut self, id: &str) -> (r: Option<SessionInfo<H>>)
        requires
            old(self).wf(),
        ensures
            final(self).wf(),
            (match r {
                Some(e) => old(self)@.contains_key(id@) && e@ == old(self)@[id@] && final(self)@
                    == old(self)@.remove(id@),
                None => !old(self)@.contains_key(id@) && final(self)@ == old(self)@,
            }),
    {
        let n = self.entries.len();
        let mut k: usize = 0;
        while k < n
            invariant
                0 <= k <= n,
                n == self.entries@.len(),
                self.wf(),
                self@ == old(self)@,
                self.entries@ == old(self).entries@,
                forall|m: int| 0 <= m < k ==> (#[trigger] self.entries@[m].id@) != id@,
        decreases n - k,
        {
            if str_eq(self.entries[k].id.as_str(), id) {
                proof {
                    lemma_map_of_index(self.entries@, k as int);
                    lemma_map_of_remove(self.entries@, k as int);
                }
                let ghost pre = self.entries@;
                let e = self.entries.remove(k);
                proof {
                    assert(forall|a: int, b: int|
                        0 <= a < b < self.entries@.len() ==> (#[trigger] self.entries@[a].id@)
                            != (#[trigger] self.entries@[b].id@)) by {
                        assert(forall|a: int|
                            0 <= a < self.entries@.len() ==> #[trigger] self.entries@[a] == (
                            if a < k as int {
                                pre[a]
                            } else {
                                pre[a + 1]
                            }));
                    }
                }
                return Some(e);
            }
            k = k + 1;
        }
        proof {
            lemma_map_of_contains(self.entries@, id@);
        }
        None
    }

    /// Destroys a session: removes its entry if present and, if one was
    /// there, raises its cancellation controller before returning.
    /// Destroying an unknown identifier is a no-op success.
    pub fn destroy(&mut self, id: &str)
        requires
            old(self).wf(),
        ensures
            final(self).wf(),
            final(self)@ == old(self)@.remove(id@),
    {
        match self.remove_entry(id) {
            Some(e) => {
                e.cancel_token.cancel();
            },
            None => {
                proof {
                    assert(old(self)@.remove(id@) =~= old(self)@);
                }
            },
        }
    }

    /// How many sessions are registered.
    pub fn len(&self) -> (r: usize)
        requires
            self.wf(),
        ensures
            r == self@.dom().len(),
    {
        proof {
            lemma_map_of_len(self.entries@);
        }
        self.entries.len()
    }
}

proof fn lemma_map_of_len<H>(s: Seq<SessionInfo<H>>)
    requires
        distinct_ids(s),
    ensures
        map_of(s).dom().finite(),
        map_of(s).dom().len() == s.len(),
    decreases s.len(),
{
    if s.len() > 0 {
        lemma_map_of_len(s.drop_last());
        lemma_map_of_contains(s.drop_last(), s.last().id@);
        assert(forall|j: int|
            0 <= j < s.drop_last().len() ==> (#[trigger] s.drop_last()[j].id@) != s.last().id@);
        assert(!map_of(s.drop_last()).contains_key(s.last().id@));
        assert(map_of(s).dom() =~= map_of(s.drop_last()).dom().insert(s.last().id@));
    }
}

/// Destroying a session is idempotent: destroying the same identifier
/// twice leaves the registry exactly as destroying it once does, and
/// destroying an identifier that is not registered changes nothing.
pub proof fn lemma_destroy_idempotent<H>(m: Map<Seq<char>, SessionRecord<H>>, id: Seq<char>)
    ensures
        m.remove(id).remove(id) == m.remove(id),
        !m.contains_key(id) ==> m.remove(id) == m,
{
    assert(m.remove(id).remove(id) =~= m.remove(id));
    if !m.contains_key(id) {
        assert(m.remove(id) =~= m);
    }
}

} // verus!

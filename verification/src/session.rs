//! Keyed conversational state: sessions, their store, and per-key locks.

use vstd::prelude::*;
use vstd::string::StringExecFns;
use crate::content::{Content, ContentView, content_views};

verus! {

/// Identity of one conversation: application, user and session identifiers.
pub struct SessionKey {
    pub app: String,
    pub user: String,
    pub session_id: String,
}

/// Mathematical model of a `SessionKey`.
#[verifier::ext_equal]
pub struct SessionKeyView {
    pub app: Seq<char>,
    pub user: Seq<char>,
    pub session_id: Seq<char>,
}

impl View for SessionKey {
    type V = SessionKeyView;

    open spec fn view(&self) -> SessionKeyView {
        SessionKeyView { app: self.app@, user: self.user@, session_id: self.session_id@ }
    }
}

impl SessionKey {
    /// Exact equality of two keys.
    pub fn key_matches(&self, other: &SessionKey) -> (r: bool)
        ensures
            r == (self@ == other@),
    {
        let r = self.app == other.app && self.user == other.user && self.session_id
            == other.session_id;
        proof {
            if r {
                assert(self@ =~= other@);
            }
        }
        r
    }

    /// Structure-preserving copy.
    pub fn duplicate(&self) -> (r: SessionKey)
        ensures
            r@ == self@,
    {
        SessionKey {
            app: self.app.clone(),
            user: self.user.clone(),
            session_id: self.session_id.clone(),
        }
    }
}

/// The views of a sequence of key/value state entries, elementwise.
pub open spec fn state_views(entries: Seq<(String, String)>) -> Seq<(Seq<char>, Seq<char>)> {
    Seq::new(entries.len(), |i: int| (entries[i].0@, entries[i].1@))
}

/// The value bound to a state key: the latest entry wins.
pub open spec fn state_lookup(entries: Seq<(Seq<char>, Seq<char>)>, k: Seq<char>) -> Option<
    Seq<char>,
>
    decreases entries.len(),
{
    if entries.len() == 0 {
        Option::None
    } else if entries.last().0 == k {
        Option::Some(entries.last().1)
    } else {
        state_lookup(entries.drop_last(), k)
    }
}

/// One conversation: its key, the ordered transcript of messages so far,
/// arbitrary key/value state, and whether a run currently holds the key.
pub struct Session {
    pub key: SessionKey,
    pub transcript: Vec<Content>,
    pub state: Vec<(String, String)>,
    pub in_flight: bool,
}

/// Mathematical model of a `Session`.
#[verifier::ext_equal]
pub struct SessionView {
    pub key: SessionKeyView,
    pub transcript: Seq<ContentView>,
    pub state: Seq<(Seq<char>, Seq<char>)>,
    pub in_flight: bool,
}

impl View for Session {
    type V = SessionView;

    open spec fn view(&self) -> SessionView {
        SessionView {
            key: self.key@,
            transcript: content_views(self.transcript@),
            state: state_views(self.state@),
            in_flight: self.in_flight,
        }
    }
}

/// A freshly created session: empty transcript, empty state, key free.
pub open spec fn empty_session_view(k: SessionKeyView) -> SessionView {
    SessionView {
        key: k,
        transcript: Seq::<ContentView>::empty(),
        state: Seq::<(Seq<char>, Seq<char>)>::empty(),
        in_flight: false,
    }
}

impl Session {
    /// Builds a fresh session for the given key.
    pub fn new(key: SessionKey) -> (r: Session)
        ensures
            r@ == empty_session_view(key@),
    {
        let r = Session { key, transcript: Vec::new(), state: Vec::new(), in_flight: false };
        proof {
            assert(content_views(r.transcript@) =~= Seq::<ContentView>::empty());
            assert(state_views(r.state@) =~= Seq::<(Seq<char>, Seq<char>)>::empty());
            assert(r@ =~= empty_session_view(r.key@));
        }
        r
    }

    /// Binds a state key to a value; earlier bindings of the same key are
    /// shadowed, every other key keeps its value.
    pub fn state_set(&mut self, k: &str, v: &str)
        ensures
            final(self)@.state == old(self)@.state.push((k@, v@)),
            state_lookup(final(self)@.state, k@) == Option::Some(v@),
            forall|k2: Seq<char>|
                k2 != k@ ==> state_lookup(final(self)@.state, k2) == state_lookup(
                    old(self)@.state,
                    k2,
                ),
            final(self)@.key == old(self)@.key,
            final(self)@.transcript == old(self)@.transcript,
            final(self)@.in_flight == old(self)@.in_flight,
    {
        let ghost pre = self.state@;
        self.state.push((k.to_owned(), v.to_owned()));
        proof {
            assert(state_views(self.state@) =~= state_views(pre).push((k@, v@)));
            let ns = state_views(self.state@);
            assert(ns.drop_last() =~= state_views(pre));
            assert(ns.last() == (k@, v@));
            assert forall|k2: Seq<char>| k2 != k@ implies state_lookup(ns, k2) == state_lookup(
                state_views(pre),
                k2,
            ) by {
                assert(state_lookup(ns, k2) == state_lookup(ns.drop_last(), k2));
            }
        }
    }

    /// Reads the value bound to a state key, if any.
    pub fn state_get(&self, k: &str) -> (r: Option<String>)
        ensures
            match r {
                Option::Some(v) => state_lookup(self@.state, k@) == Option::Some(v@),
                Option::None => state_lookup(self@.state, k@) is None,
            },
    {
        let ks = k.to_owned();
        let mut i: usize = self.state.len();
        proof {
            assert(self@.state.subrange(0, self.state.len() as int) =~= self@.state);
        }
        while i > 0
            invariant
                i <= self.state.len(),
                ks@ == k@,
                state_lookup(self@.state, k@) == state_lookup(
                    self@.state.subrange(0, i as int),
                    k@,
                ),
            decreases i,
        {
            i -= 1;
            proof {
                let sub = self@.state.subrange(0, (i + 1) as int);
                assert(sub.last() == self@.state[i as int]);
                assert(sub.drop_last() =~= self@.state.subrange(0, i as int));
            }
            if self.state[i].0 == ks {
                let v = self.state[i].1.clone();
                proof {
                    assert(self@.state[i as int].0 == k@);
                    assert(state_lookup(self@.state, k@) == Option::Some(
                        self@.state[i as int].1,
                    ));
                }
                return Option::Some(v);
            }
        }
        proof {
            assert(self@.state.subrange(0, 0) =~= Seq::<(Seq<char>, Seq<char>)>::empty());
        }
        Option::None
    }
}

/// The views of a sequence of sessions, elementwise.
pub open spec fn session_views(s: Seq<Session>) -> Seq<SessionView> {
    Seq::new(s.len(), |i: int| s[i]@)
}

/// No two sessions share a key.
pub open spec fn keys_unique(s: Seq<SessionView>) -> bool {
    forall|i: int, j: int|
        0 <= i < s.len() && 0 <= j < s.len() && i != j ==> (#[trigger] s[i]).key != (
        #[trigger] s[j]).key
}

/// Some session in the sequence has this key.
pub open spec fn has_session_in(s: Seq<SessionView>, k: SessionKeyView) -> bool {
    exists|i: int| 0 <= i < s.len() && (#[trigger] s[i]).key == k
}

/// The index of the session with this key.
pub open spec fn session_index_in(s: Seq<SessionView>, k: SessionKeyView) -> int {
    choose|i: int| 0 <= i < s.len() && (#[trigger] s[i]).key == k
}

/// The session with this key.
pub open spec fn session_in(s: Seq<SessionView>, k: SessionKeyView) -> SessionView {
    s[session_index_in(s, k)]
}

/// With unique keys, the session index is the unique witness.
pub proof fn lemma_session_index(s: Seq<SessionView>, k: SessionKeyView, i: int)
    requires
        keys_unique(s),
        0 <= i < s.len(),
        s[i].key == k,
    ensures
        has_session_in(s, k),
        session_index_in(s, k) == i,
        session_in(s, k) == s[i],
{
    assert(has_session_in(s, k));
    let j = session_index_in(s, k);
    assert(0 <= j < s.len() && s[j].key == k);
    if i != j {
        assert(s[i].key != s[j].key);
        assert(false);
    }
}

/// Replacing one session by another with the same key keeps the store
/// well formed, keeps every key, and leaves every other session untouched.
pub proof fn lemma_update_session(s: Seq<SessionView>, i: int, v: SessionView)
    requires
        keys_unique(s),
        0 <= i < s.len(),
        v.key == s[i].key,
    ensures
        keys_unique(s.update(i, v)),
        forall|k: SessionKeyView|
            has_session_in(s.update(i, v), k) == has_session_in(s, k),
        session_index_in(s.update(i, v), v.key) == i,
        session_in(s.update(i, v), v.key) == v,
        forall|k: SessionKeyView|
            has_session_in(s, k) && k != v.key ==> session_in(s.update(i, v), k) == session_in(
                s,
                k,
            ),
{
    let t = s.update(i, v);
    assert forall|a: int, b: int|
        0 <= a < t.len() && 0 <= b < t.len() && a != b implies (#[trigger] t[a]).key != (
    #[trigger] t[b]).key by {
        assert(t[a].key == s[a].key);
        assert(t[b].key == s[b].key);
    }
    assert forall|k: SessionKeyView| has_session_in(t, k) == has_session_in(s, k) by {
        if has_session_in(t, k) {
            let j = choose|j: int| 0 <= j < t.len() && (#[trigger] t[j]).key == k;
            assert(s[j].key == k);
            assert(has_session_in(s, k));
        }
        if has_session_in(s, k) {
            let j = choose|j: int| 0 <= j < s.len() && (#[trigger] s[j]).key == k;
            assert(t[j].key == k);
            assert(has_session_in(t, k));
        }
    }
    lemma_session_index(t, v.key, i);
    assert forall|k: SessionKeyView|
        has_session_in(s, k) && k != v.key implies session_in(t, k) == session_in(s, k) by {
        let j = session_index_in(s, k);
        assert(0 <= j < s.len() && s[j].key == k);
        assert(j != i);
        assert(t[j] == s[j]);
        lemma_session_index(s, k, j);
        lemma_session_index(t, k, j);
    }
}

/// Adding a session under a fresh key keeps the store well formed and
/// leaves every existing session untouched.
pub proof fn lemma_push_session(s: Seq<SessionView>, v: SessionView)
    requires
        keys_unique(s),
        !has_session_in(s, v.key),
    ensures
        keys_unique(s.push(v)),
        has_session_in(s.push(v), v.key),
        session_index_in(s.push(v), v.key) == s.len(),
        session_in(s.push(v), v.key) == v,
        forall|k: SessionKeyView|
            k != v.key ==> has_session_in(s.push(v), k) == has_session_in(s, k),
        forall|k: SessionKeyView|
            has_session_in(s, k) ==> session_in(s.push(v), k) == session_in(s, k),
{
    let t = s.push(v);
    assert forall|a: int, b: int|
        0 <= a < t.len() && 0 <= b < t.len() && a != b implies (#[trigger] t[a]).key != (
    #[trigger] t[b]).key by {
        if a < s.len() && b < s.len() {
            assert(t[a] == s[a]);
            assert(t[b] == s[b]);
        } else if a == s.len() {
            assert(t[b] == s[b]);
            if s[b].key == v.key {
                assert(has_session_in(s, v.key));
            }
        } else {
            assert(t[a] == s[a]);
            if s[a].key == v.key {
                assert(has_session_in(s, v.key));
            }
        }
    }
    lemma_session_index(t, v.key, s.len() as int);
    assert forall|k: SessionKeyView|
        k != v.key implies has_session_in(t, k) == has_session_in(s, k) by {
        if has_session_in(t, k) {
            let j = choose|j: int| 0 <= j < t.len() && (#[trigger] t[j]).key == k;
            assert(j < s.len());
            assert(s[j].key == k);
            assert(has_session_in(s, k));
        }
        if has_session_in(s, k) {
            let j = choose|j: int| 0 <= j < s.len() && (#[trigger] s[j]).key == k;
            assert(t[j].key == k);
            assert(has_session_in(t, k));
        }
    }
    assert forall|k: SessionKeyView|
        has_session_in(s, k) implies session_in(t, k) == session_in(s, k) by {
        let j = choose|j: int| 0 <= j < s.len() && (#[trigger] s[j]).key == k;
        assert(t[j] == s[j]);
        lemma_session_index(s, k, j);
        lemma_session_index(t, k, j);
    }
}

/// The single source of truth for sessions: a keyed store offering atomic
/// get-or-create, per-key acquisition, and atomic transcript appends.
pub struct SessionStore {
    pub sessions: Vec<Session>,
}

impl SessionStore {
    /// The sessions held, as mathematical values.
    pub open spec fn views(self) -> Seq<SessionView> {
        session_views(self.sessions@)
    }

    /// Well-formedness: no two sessions share a key.
    pub open spec fn wf(self) -> bool {
        keys_unique(self.views())
    }

    /// Whether a session with this key exists.
    pub open spec fn has_session(self, k: SessionKeyView) -> bool {
        has_session_in(self.views(), k)
    }

    /// The session with this key.
    pub open spec fn session_of(self, k: SessionKeyView) -> SessionView {
        session_in(self.views(), k)
    }

    /// The transcript of the session with this key.
    pub open spec fn transcript_of(self, k: SessionKeyView) -> Seq<ContentView> {
        self.session_of(k).transcript
    }

    /// Whether a run currently holds this key.
    pub open spec fn in_flight(self, k: SessionKeyView) -> bool {
        self.session_of(k).in_flight
    }

    /// Builds an empty store.
    pub fn new() -> (r: SessionStore)
        ensures
            r.wf(),
            r.views() == Seq::<SessionView>::empty(),
            forall|k: SessionKeyView| !(#[trigger] r.has_session(k)),
    {
        let r = SessionStore { sessions: Vec::new() };
        proof {
            assert(r.views() =~= Seq::<SessionView>::empty());
        }
        r
    }

    /// Finds the position of the session with this key, if present.
    fn find_index(&self, key: &SessionKey) -> (r: Option<usize>)
        requires
            self.wf(),
        ensures
            match r {
                Option::Some(i) => self.has_session(key@) && i < self.views().len()
                    && self.views()[i as int].key == key@ && session_index_in(self.views(), key@)
                    == i,
                Option::None => !self.has_session(key@),
            },
    {
        let mut i: usize = 0;
        while i < self.sessions.len()
            invariant
                i <= self.sessions.len(),
                self.wf(),
                forall|j: int| 0 <= j < i ==> (#[trigger] self.views()[j]).key != key@,
            decreases self.sessions.len() - i,
        {
            if self.sessions[i].key.key_matches(key) {
                proof {
                    assert(self.views()[i as int].key == key@);
                    lemma_session_index(self.views(), key@, i as int);
                }
                return Option::Some(i);
            }
            proof {
                assert(self.views()[i as int].key != key@);
            }
            i += 1;
        }
        proof {
            if self.has_session(key@) {
                let j = session_index_in(self.views(), key@);
                assert(0 <= j < self.views().len() && self.views()[j].key == key@);
            }
        }
        Option::None
    }

    /// Resolves the session for this key, creating it when absent.
    /// Creation is idempotent: an existing session is reused, never reset.
    pub fn get_or_create(&mut self, key: &SessionKey) -> (created: bool)
        requires
            old(self).wf(),
        ensures
            final(self).wf(),
            created == !old(self).has_session(key@),
            final(self).has_session(key@),
            !created ==> *final(self) == *old(self),
            created ==> final(self).session_of(key@) == empty_session_view(key@),
            !created ==> final(self).session_of(key@) == old(self).session_of(key@),
            forall|k2: SessionKeyView|
                k2 != key@ ==> final(self).has_session(k2) == old(self).has_session(k2),
            forall|k2: SessionKeyView|
                k2 != key@ && old(self).has_session(k2) ==> final(self).session_of(k2) == old(
                    self,
                ).session_of(k2),
    {
        match self.find_index(key) {
            Option::Some(_) => false,
            Option::None => {
                let ghost pre = self.views();
                let s = Session::new(key.duplicate());
                self.sessions.push(s);
                proof {
                    assert(self.views() =~= pre.push(empty_session_view(key@)));
                    lemma_push_session(pre, empty_session_view(key@));
                }
                true
            },
        }
    }

    /// Tries to take the per-key exclusivity lock; fails when another run
    /// is still in flight on this key. Nothing else changes either way.
    pub fn try_acquire(&mut self, key: &SessionKey) -> (ok: bool)
        requires
            old(self).wf(),
            old(self).has_session(key@),
        ensures
            final(self).wf(),
            ok == !old(self).in_flight(key@),
            !ok ==> *final(self) == *old(self),
            ok ==> final(self).session_of(key@) == (SessionView {
                in_flight: true,
                ..old(self).session_of(key@)
            }),
            forall|k2: SessionKeyView|
                final(self).has_session(k2) == old(self).has_session(k2),
            forall|k2: SessionKeyView|
                k2 != key@ && old(self).has_session(k2) ==> final(self).session_of(k2) == old(
                    self,
                ).session_of(k2),
    {
        let idx = match self.find_index(key) {
            Option::Some(i) => i,
            Option::None => {
                proof {
                    assert(false);
                }
                0
            },
        };
        if self.sessions[idx].in_flight {
            proof {
                assert(old(self).in_flight(key@));
            }
            false
        } else {
            let ghost pre = self.views();
            let entry = &mut self.sessions[idx];
            entry.in_flight = true;
            proof {
                let nv = (SessionView { in_flight: true, ..pre[idx as int] });
                assert(self.sessions@[idx as int]@ =~= nv);
                assert(self.views() =~= pre.update(idx as int, nv));
                lemma_update_session(pre, idx as int, nv);
            }
            true
        }
    }

    /// Releases the per-key exclusivity lock. Nothing else changes.
    pub fn release(&mut self, key: &SessionKey)
        requires
            old(self).wf(),
            old(self).has_session(key@),
        ensures
            final(self).wf(),
            final(self).session_of(key@) == (SessionView {
                in_flight: false,
                ..old(self).session_of(key@)
            }),
            forall|k2: SessionKeyView|
                final(self).has_session(k2) == old(self).has_session(k2),
            forall|k2: SessionKeyView|
                k2 != key@ && old(self).has_session(k2) ==> final(self).session_of(k2) == old(
                    self,
                ).session_of(k2),
    {
        let idx = match self.find_index(key) {
            Option::Some(i) => i,
            Option::None => {
                proof {
                    assert(false);
                }
                0
            },
        };
        let ghost pre = self.views();
        let entry = &mut self.sessions[idx];
        entry.in_flight = false;
        proof {
            let nv = (SessionView { in_flight: false, ..pre[idx as int] });
            assert(self.sessions@[idx as int]@ =~= nv);
            assert(self.views() =~= pre.update(idx as int, nv));
            lemma_update_session(pre, idx as int, nv);
        }
    }

    /// Atomically appends one completed turn — the user message, then the
    /// agent reply — to the transcript of the session with this key.
    pub fn append_turn(&mut self, key: &SessionKey, user_turn: Content, agent_turn: Content)
        requires
            old(self).wf(),
            old(self).has_session(key@),
        ensures
            final(self).wf(),
            final(self).session_of(key@) == (SessionView {
                transcript: old(self).transcript_of(key@) + seq![user_turn@, agent_turn@],
                ..old(self).session_of(key@)
            }),
            forall|k2: SessionKeyView|
                final(self).has_session(k2) == old(self).has_session(k2),
            forall|k2: SessionKeyView|
                k2 != key@ && old(self).has_session(k2) ==> final(self).session_of(k2) == old(
                    self,
                ).session_of(k2),
    {
        let idx = match self.find_index(key) {
            Option::Some(i) => i,
            Option::None => {
                proof {
                    assert(false);
                }
                0
            },
        };
        let ghost pre = self.views();
        let ghost ut = user_turn@;
        let ghost at = agent_turn@;
        let entry = &mut self.sessions[idx];
        let ghost tpre = entry.transcript@;
        entry.transcript.push(user_turn);
        entry.transcript.push(agent_turn);
        proof {
            assert(content_views(self.sessions@[idx as int].transcript@) =~= content_views(tpre)
                + seq![ut, at]);
            let nv = (SessionView { transcript: pre[idx as int].transcript + seq![ut, at], ..pre[idx as int] });
            assert(self.sessions@[idx as int]@ =~= nv);
            assert(self.views() =~= pre.update(idx as int, nv));
            lemma_update_session(pre, idx as int, nv);
        }
    }

    /// A copy of the transcript of the session with this key, in order.
    pub fn transcript_snapshot(&self, key: &SessionKey) -> (r: Vec<Content>)
        requires
            self.wf(),
            self.has_session(key@),
        ensures
            content_views(r@) == self.transcript_of(key@),
    {
        let idx = match self.find_index(key) {
            Option::Some(i) => i,
            Option::None => {
                proof {
                    assert(false);
                }
                0
            },
        };
        let entries = &self.sessions[idx].transcript;
        let mut out: Vec<Content> = Vec::new();
        let mut i: usize = 0;
        proof {
            assert(content_views(entries@) == self.transcript_of(key@));
        }
        while i < entries.len()
            invariant
                i <= entries.len(),
                content_views(out@) == content_views(entries@).subrange(0, i as int),
            decreases entries.len() - i,
        {
            let ghost pre = out@;
            let d = entries[i].duplicate();
            out.push(d);
            proof {
                assert(content_views(pre).len() == pre.len());
                assert(out@ == pre.push(d));
                assert(content_views(out@) =~= content_views(entries@).subrange(
                    0,
                    (i + 1) as int,
                ));
            }
            i += 1;
        }
        proof {
            assert(content_views(entries@).subrange(0, entries.len() as int) =~= content_views(
                entries@,
            ));
        }
        out
    }

    /// The number of transcript entries for this key.
    pub fn transcript_len(&self, key: &SessionKey) -> (r: usize)
        requires
            self.wf(),
            self.has_session(key@),
        ensures
            r == self.transcript_of(key@).len(),
    {
        let idx = match self.find_index(key) {
            Option::Some(i) => i,
            Option::None => {
                proof {
                    assert(false);
                }
                0
            },
        };
        self.sessions[idx].transcript.len()
    }

    /// Whether a run currently holds this key.
    pub fn is_in_flight(&self, key: &SessionKey) -> (r: bool)
        requires
            self.wf(),
            self.has_session(key@),
        ensures
            r == self.in_flight(key@),
    {
        let idx = match self.find_index(key) {
            Option::Some(i) => i,
            Option::None => {
                proof {
                    assert(false);
                }
                0
            },
        };
        self.sessions[idx].in_flight
    }
}

} // verus!

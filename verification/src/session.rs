//! The sessions of one rewriting pass.
//!
//! A session is a name and a slot. The caller keeps one working directory per
//! slot; a name keeps its slot for the whole pass, so every block of a session
//! runs in the directory that the session's first block ran in.

use vstd::prelude::*;

verus! {

/// The slot of the session `name` among `names`: where the name stands first,
/// or the length of `names` where it does not stand yet.
pub open spec fn slot_of(names: Seq<Seq<char>>, name: Seq<char>) -> int
    decreases names.len(),
{
    if names.len() == 0 {
        0
    } else if slot_of(names.drop_last(), name) < names.len() - 1 {
        slot_of(names.drop_last(), name)
    } else if names.last() == name {
        names.len() - 1
    } else {
        names.len() as int
    }
}

/// The names after the session `name` was asked for: the name is added where
/// it was missing.
pub open spec fn with_session(names: Seq<Seq<char>>, name: Seq<char>) -> Seq<Seq<char>> {
    if slot_of(names, name) == names.len() {
        names.push(name)
    } else {
        names
    }
}

/// `slot_of` is the first position of the name, or the length.
pub proof fn lemma_slot_of(names: Seq<Seq<char>>, name: Seq<char>)
    ensures
        0 <= slot_of(names, name) <= names.len(),
        slot_of(names, name) < names.len() ==> names[slot_of(names, name)] == name,
        forall|i: int| 0 <= i < slot_of(names, name) ==> names[i] != name,
    decreases names.len(),
{
    if names.len() > 0 {
        let front = names.drop_last();
        lemma_slot_of(front, name);
        assert forall|i: int| 0 <= i < slot_of(names, name) implies names[i] != name by {
            if i < front.len() {
                assert(front[i] == names[i]);
            }
        }
    }
}

/// A name that was asked for keeps its slot, whatever is asked for later.
pub proof fn lemma_slot_is_kept(names: Seq<Seq<char>>, name: Seq<char>, later: Seq<char>)
    ensures
        slot_of(with_session(with_session(names, name), later), name) == slot_of(names, name),
{
    lemma_slot_of(names, name);
    let first = with_session(names, name);
    lemma_slot_of(first, name);
    lemma_slot_of(first, later);
    let second = with_session(first, later);
    lemma_slot_of(second, name);
    assert(first[slot_of(names, name)] == name);
    assert(second[slot_of(names, name)] == name);
    assert forall|i: int| 0 <= i < slot_of(names, name) implies second[i] != name by {
        assert(second[i] == names[i]);
    }
}

/// Two sessions share a slot if and only if they share a name.
pub proof fn lemma_sessions_share_by_name(names: Seq<Seq<char>>, a: Seq<char>, b: Seq<char>)
    ensures
        slot_of(with_session(names, a), a) == slot_of(with_session(with_session(names, a), b), b)
            <==> a == b,
{
    let first = with_session(names, a);
    let second = with_session(first, b);
    lemma_slot_of(names, a);
    lemma_slot_of(first, a);
    lemma_slot_of(first, b);
    lemma_slot_of(second, b);
    assert(second[slot_of(first, a)] == a);
}

/// The sessions opened so far, in the order of their slots.
pub struct SessionStore {
    names: Vec<String>,
}

/// A session as the caller needs it to find its directory.
#[derive(Debug, PartialEq, Eq)]
pub struct Session {
    /// The position of the session's directory among the caller's.
    pub slot: usize,
    /// The session's name.
    pub name: String,
}

impl View for SessionStore {
    type V = Seq<Seq<char>>;

    closed spec fn view(&self) -> Seq<Seq<char>> {
        self.names@.map_values(|n: String| n@)
    }
}

impl SessionStore {
    /// A store without sessions.
    pub fn new() -> (store: SessionStore)
        ensures
            store@ == Seq::<Seq<char>>::empty(),
    {
        let store = SessionStore { names: Vec::new() };
        assert(store@ == Seq::<Seq<char>>::empty());
        store
    }

    /// The number of sessions opened so far.
    pub fn len(&self) -> (n: usize)
        ensures
            n == self@.len(),
    {
        self.names.len()
    }

    /// The slot of the session `name`, which is opened if it was not open.
    ///
    /// The second result says whether the session is new: then the caller owes
    /// it a fresh directory, at the end of its list.
    pub fn get_or_create(&mut self, name: &str) -> (found: (usize, bool))
        ensures
            found.0 == slot_of(old(self)@, name@),
            found.1 == (slot_of(old(self)@, name@) == old(self)@.len()),
            final(self)@ == with_session(old(self)@, name@),
            found.0 < final(self)@.len(),
            final(self)@[found.0 as int] == name@,
    {
        let wanted = String::from_str(name);
        let mut at: usize = 0;
        while at < self.names.len()
            invariant
                *self == *old(self),
                wanted@ == name@,
                at <= self.names.len(),
                slot_of(self@.take(at as int), name@) == at,
            decreases self.names.len() - at,
        {
            proof {
                let next = self@.take(at + 1);
                assert(next.drop_last() == self@.take(at as int));
                assert(next.last() == self.names@[at as int]@);
            }
            if self.names[at] == wanted {
                proof {
                    lemma_slot_found(self@, at as int, name@);
                }
                return (at, false);
            }
            at = at + 1;
        }
        proof {
            assert(self@.take(at as int) == self@);
            assert(self.names@.push(wanted).map_values(|n: String| n@) == self@.push(name@));
        }
        self.names.push(wanted);
        proof {
            lemma_slot_of(old(self)@, name@);
        }
        (at, true)
    }
}

/// A name found at `at`, and not before, has the slot `at` in the whole list.
proof fn lemma_slot_found(names: Seq<Seq<char>>, at: int, name: Seq<char>)
    requires
        0 <= at < names.len(),
        slot_of(names.take(at + 1), name) == at,
    ensures
        slot_of(names, name) == at,
    decreases names.len(),
{
    if names.len() > at + 1 {
        assert(names.drop_last().take(at + 1) == names.take(at + 1));
        lemma_slot_found(names.drop_last(), at, name);
    } else {
        assert(names.take(at + 1) == names);
    }
}

} // verus!

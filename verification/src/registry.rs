use vstd::prelude::*;
use crate::error::ServieError;
use crate::identity::ShortIdStr;

verus! {

/// The map that a list of registry entries holds: each entry binds its
/// username's characters to its handle.
pub open spec fn map_of<H>(s: Seq<(ShortIdStr, H)>) -> Map<Seq<char>, H>
    decreases s.len(),
{
    if s.len() == 0 {
        Map::empty()
    } else {
        map_of(s.drop_last()).insert(s.last().0@, s.last().1)
    }
}

/// A key is in the map exactly when some entry carries it.
proof fn lemma_map_of_contains<H>(s: Seq<(ShortIdStr, H)>, k: Seq<char>)
    ensures
        map_of(s).contains_key(k) <==> exists|i: int| 0 <= i < s.len() && (#[trigger] s[i]).0@ == k,
    decreases s.len(),
{
    if s.len() > 0 {
        lemma_map_of_contains(s.drop_last(), k);
        if map_of(s).contains_key(k) {
            if s.last().0@ == k {
                assert((#[trigger] s[s.len() - 1]).0@ == k);
            } else {
                let i = choose|i: int| 0 <= i < s.drop_last().len() && (#[trigger] s.drop_last()[i]).0@ == k;
                assert(s[i].0@ == k);
            }
        }
        if exists|i: int| 0 <= i < s.len() && (#[trigger] s[i]).0@ == k {
            let i = choose|i: int| 0 <= i < s.len() && (#[trigger] s[i]).0@ == k;
            if i < s.len() - 1 {
                assert(s.drop_last()[i].0@ == k);
            }
        }
    }
}

/// When no two entries share a username, each entry's handle is the one the
/// map holds for its username.
proof fn lemma_map_of_value<H>(s: Seq<(ShortIdStr, H)>, i: int)
    requires
        forall|x: int, y: int|
            0 <= x < y < s.len() ==> (#[trigger] s[x]).0@ != (#[trigger] s[y]).0@,
        0 <= i < s.len(),
    ensures
        map_of(s).contains_key(s[i].0@),
        map_of(s)[s[i].0@] == s[i].1,
    decreases s.len(),
{
    if i == s.len() - 1 {
    } else {
        assert(s.drop_last()[i] == s[i]);
        lemma_map_of_value(s.drop_last(), i);
        assert(s[i].0@ != s[s.len() - 1].0@);
    }
}

/// The presence registry: a map from username to the mailbox handle of the
/// one live session under that name. Shared across sessions; reads look a
/// user up, writes register or deregister a session.
pub struct UserChannels<H> {
    entries: Vec<(ShortIdStr, H)>,
}

impl<H> UserChannels<H> {
    /// The registry as a map from a username's characters to its handle.
    pub closed spec fn spec_map(&self) -> Map<Seq<char>, H> {
        map_of(self.entries@)
    }

    /// At most one entry per username, every registered username well formed.
    pub closed spec fn wf(&self) -> bool {
        &&& forall|x: int, y: int|
            0 <= x < y < self.entries@.len() ==> (#[trigger] self.entries@[x]).0@ != (
            #[trigger] self.entries@[y]).0@
        &&& forall|x: int| 0 <= x < self.entries@.len() ==> (#[trigger] self.entries@[x]).0.wf()
    }

    /// An empty registry: nobody is online.
    pub fn new() -> (r: Self)
        ensures
            r.wf(),
            r.spec_map() == Map::<Seq<char>, H>::empty(),
    {
        UserChannels { entries: Vec::new() }
    }

    /// Looks a username up; `Some` exactly for registered usernames, and then
    /// the handle registered under it.
    pub fn get(&self, username: &ShortIdStr) -> (r: Option<&H>)
        requires
            self.wf(),
        ensures
            r is Some <==> self.spec_map().contains_key(username@),
            r matches Some(h) ==> *h == self.spec_map()[username@],
    {
        proof {
            lemma_map_of_contains(self.entries@, username@);
        }
        let mut i: usize = 0;
        while i < self.entries.len()
            invariant
                self.wf(),
                i <= self.entries@.len(),
                forall|j: int| 0 <= j < i ==> (#[trigger] self.entries@[j]).0@ != username@,
            decreases self.entries@.len() - i,
        {
            if self.entries[i].0 == *username {
                proof {
                    lemma_map_of_value(self.entries@, i as int);
                }
                return Some(&self.entries[i].1);
            }
            i += 1;
        }
        proof {
            lemma_map_of_contains(self.entries@, username@);
        }
        None
    }

    /// Whether a session is registered under this username.
    pub fn is_online(&self, username: &ShortIdStr) -> (r: bool)
        requires
            self.wf(),
        ensures
            r == self.spec_map().contains_key(username@),
    {
        self.get(username).is_some()
    }

    /// Registers a session's mailbox handle under its username. Refused, and
    /// the registry left unchanged, exactly when the username is already
    /// held: duplicate-login prevention.
    pub fn register(&mut self, username: ShortIdStr, handle: H) -> (r: Result<(), ServieError>)
        requires
            old(self).wf(),
            username.wf(),
        ensures
            final(self).wf(),
            old(self).spec_map().contains_key(username@) ==> {
                &&& (r matches Err(e) && e is AlreadyOnline)
                &&& final(self).spec_map() == old(self).spec_map()
            },
            !old(self).spec_map().contains_key(username@) ==> {
                &&& r is Ok
                &&& final(self).spec_map() == old(self).spec_map().insert(username@, handle)
            },
    {
        if self.is_online(&username) {
            return Err(ServieError::AlreadyOnline);
        }
        proof {
            lemma_map_of_contains(self.entries@, username@);
        }
        let ghost pre = self.entries@;
        let ghost name = username@;
        self.entries.push((username, handle));
        proof {
            assert(self.entries@.drop_last() =~= pre);
            assert forall|x: int, y: int|
                0 <= x < y < self.entries@.len() implies (#[trigger] self.entries@[x]).0@ != (
            #[trigger] self.entries@[y]).0@ by {
                if y < self.entries@.len() - 1 {
                    assert(pre[x].0@ != pre[y].0@);
                } else {
                    assert(self.entries@[x] == pre[x]);
                    assert(!(0 <= x < pre.len() && (#[trigger] pre[x]).0@ == name));
                }
            }
            assert forall|x: int| 0 <= x < self.entries@.len() implies (
            #[trigger] self.entries@[x]).0.wf() by {
                if x < self.entries@.len() - 1 {
                    assert(pre[x].0.wf());
                }
            }
        }
        Ok(())
    }

    /// Deregisters a username; removing an absent username changes nothing,
    /// so session teardown may call this unconditionally.
    pub fn remove(&mut self, username: &ShortIdStr)
        requires
            old(self).wf(),
        ensures
            final(self).wf(),
            final(self).spec_map() == old(self).spec_map().remove(username@),
    {
        let mut i: usize = 0;
        while i < self.entries.len()
            invariant
                self.wf(),
                i <= self.entries@.len(),
                forall|j: int| 0 <= j < i ==> (#[trigger] self.entries@[j]).0@ != username@,
                self.entries@ == old(self).entries@,
            decreases self.entries@.len() - i,
        {
            if self.entries[i].0 == *username {
                proof {
                    lemma_map_of_remove(self.entries@, i as int);
                }
                let ghost pre = self.entries@;
                self.entries.remove(i);
                proof {
                    assert forall|x: int, y: int|
                        0 <= x < y < self.entries@.len() implies (#[trigger] self.entries@[x]).0@
                        != (#[trigger] self.entries@[y]).0@ by {
                        let px: int = if x < i { x } else { x + 1 };
                        let py: int = if y < i { y } else { y + 1 };
                        assert(pre[px].0@ != pre[py].0@);
                    }
                    assert forall|x: int| 0 <= x < self.entries@.len() implies (
                    #[trigger] self.entries@[x]).0.wf() by {
                        let px: int = if x < i { x } else { x + 1 };
                        assert(pre[px].0.wf());
                    }
                }
                return ;
            }
            i += 1;
        }
        proof {
            lemma_map_of_contains(self.entries@, username@);
            assert(!old(self).spec_map().contains_key(username@));
            assert(old(self).spec_map().remove(username@) =~= old(self).spec_map());
        }
    }
}

/// Removing an entry removes exactly its username's binding, when no two
/// entries share a username.
proof fn lemma_map_of_remove<H>(s: Seq<(ShortIdStr, H)>, i: int)
    requires
        forall|x: int, y: int|
            0 <= x < y < s.len() ==> (#[trigger] s[x]).0@ != (#[trigger] s[y]).0@,
        0 <= i < s.len(),
    ensures
        map_of(s.remove(i)) == map_of(s).remove(s[i].0@),
    decreases s.len(),
{
    let k = s[i].0@;
    if i == s.len() - 1 {
        assert(s.remove(i) =~= s.drop_last());
        lemma_map_of_contains(s.drop_last(), k);
        assert forall|j: int| 0 <= j < s.drop_last().len() implies (#[trigger] s.drop_last()[j]).0@
            != k by {
            assert(s[j].0@ != s[s.len() - 1].0@);
        }
        assert(!map_of(s.drop_last()).contains_key(k));
        assert(map_of(s).remove(k) =~= map_of(s.drop_last()));
    } else {
        let t = s.drop_last();
        assert(s.remove(i).drop_last() =~= t.remove(i));
        assert(s.remove(i).last() == s.last());
        assert forall|x: int, y: int|
            0 <= x < y < t.len() implies (#[trigger] t[x]).0@ != (#[trigger] t[y]).0@ by {
            assert(s[x].0@ != s[y].0@);
        }
        assert(t[i] == s[i]);
        lemma_map_of_remove(t, i);
        assert(s[i].0@ != s[s.len() - 1].0@);
        assert(map_of(s.remove(i)) == map_of(t.remove(i)).insert(s.last().0@, s.last().1));
        assert(map_of(t).remove(k).insert(s.last().0@, s.last().1) =~= map_of(t).insert(
            s.last().0@,
            s.last().1,
        ).remove(k));
    }
}

/// Of two registrations under one username, at most one can succeed: the
/// first to insert leaves the username held, and `register` refuses a held
/// username with `AlreadyOnline` before any handshake challenge is issued.
pub proof fn lemma_duplicate_register_refused<H>(m: Map<Seq<char>, H>, u: Seq<char>, h: H)
    requires
        !m.contains_key(u),
    ensures
        m.insert(u, h).contains_key(u),
{
}

/// After a session under a username is deregistered, that username is free,
/// so a fresh registration under it succeeds.
pub proof fn lemma_register_after_remove<H>(m: Map<Seq<char>, H>, u: Seq<char>)
    ensures
        !m.remove(u).contains_key(u),
{
}

} // verus!

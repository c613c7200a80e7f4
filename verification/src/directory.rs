//! The presence directory: who is online, and under which connection.
//!
//! The directory maps each registered nickname to the connection that
//! registered it last. It is kept in a `dashmap::DashMap`; the five calls into
//! that crate stand at the top of this file, each with the contract that the
//! rest is proved against.

use vstd::prelude::*;
use crate::text::{same_text, texts};

verus! {

/// `dashmap::DashMap`, a hash map. Nothing is claimed of what is inside but
/// through `sessions`.
#[verifier::external_type_specification]
#[verifier::external_body]
#[verifier::reject_recursive_types(K)]
#[verifier::reject_recursive_types(V)]
#[verifier::reject_recursive_types(S)]
pub struct ExDashMap<K, V, S>(dashmap::DashMap<K, V, S>);

/// What a map of sessions holds: for each nickname in it, the connection
/// stored under that nickname.
pub uninterp spec fn sessions(map: dashmap::DashMap<String, u64>) -> Map<Seq<char>, u64>;

/// The sessions of a map that holds nothing.
pub open spec fn no_sessions() -> Map<Seq<char>, u64> {
    Map::empty()
}

/// The connection stored under `nickname`, if any.
pub open spec fn holder(sessions: Map<Seq<char>, u64>, nickname: Seq<char>) -> Option<u64> {
    if sessions.contains_key(nickname) {
        Some(sessions[nickname])
    } else {
        None
    }
}

/// An empty map.
///
/// Calls `DashMap::new`, which creates a map with no entries.
#[verifier::external_body]
fn map_new() -> (map: dashmap::DashMap<String, u64>)
    ensures
        sessions(map) == no_sessions(),
{
    dashmap::DashMap::new()
}

/// Stores `connection` under `nickname`.
///
/// Calls `DashMap::insert`, which puts the key and value into the map and
/// replaces the value of a key that was there. Nothing else in the map
/// changes. The map is held exclusively, so no reference into it is alive and
/// the call returns.
#[verifier::external_body]
fn map_insert(map: &mut dashmap::DashMap<String, u64>, nickname: String, connection: u64)
    ensures
        sessions(*final(map)) == sessions(*old(map)).insert(nickname@, connection),
{
    map.insert(nickname, connection);
}

/// Removes what is stored under `nickname`.
///
/// Calls `DashMap::remove`, which takes the entry of that key out of the map
/// if there is one, and leaves the map as it is otherwise.
#[verifier::external_body]
fn map_remove(map: &mut dashmap::DashMap<String, u64>, nickname: &str)
    ensures
        sessions(*final(map)) == sessions(*old(map)).remove(nickname@),
{
    map.remove(nickname);
}

/// The connection stored under `nickname`, if any.
///
/// Calls `DashMap::get`, which finds the entry of that key, and copies the
/// value out of the reference that it hands back.
#[verifier::external_body]
fn map_get(map: &dashmap::DashMap<String, u64>, nickname: &str) -> (found: Option<u64>)
    ensures
        found == holder(sessions(*map), nickname@),
{
    map.get(nickname).map(|entry| *entry.value())
}

/// Every nickname in the map, once each, in no particular order.
///
/// Calls `DashMap::iter`, which visits every entry of the map once, and
/// clones the key of each. The order depends on how the keys hash, so the
/// contract speaks of the nicknames as a set.
#[verifier::external_body]
fn map_keys(map: &dashmap::DashMap<String, u64>) -> (nicknames: Vec<String>)
    ensures
        texts(nicknames@).no_duplicates(),
        texts(nicknames@).to_set() == sessions(*map).dom(),
{
    map.iter().map(|entry| entry.key().clone()).collect()
}

/// The registry of online peers.
pub struct Directory {
    map: dashmap::DashMap<String, u64>,
}

impl View for Directory {
    type V = Map<Seq<char>, u64>;

    closed spec fn view(&self) -> Map<Seq<char>, u64> {
        sessions(self.map)
    }
}

/// `wanted` stands among the first `upto` of `all`.
pub open spec fn among(all: Seq<Seq<char>>, upto: int, wanted: Seq<char>) -> bool {
    exists|j: int| 0 <= j < upto && all[j] == wanted
}

/// `listed` names every nickname of `sessions` but `nickname`, once each.
pub open spec fn lists_others(
    listed: Seq<Seq<char>>,
    sessions: Map<Seq<char>, u64>,
    nickname: Seq<char>,
) -> bool {
    listed.no_duplicates() && listed.to_set() == sessions.dom().remove(nickname)
}

impl Directory {
    /// A directory with nobody online.
    pub fn new() -> (directory: Directory)
        ensures
            directory@ == no_sessions(),
    {
        Directory { map: map_new() }
    }

    /// Registers `nickname` for `connection`, in place of whichever connection
    /// held the nickname before, and tells who else is online.
    pub fn register(&mut self, nickname: String, connection: u64) -> (others: Vec<String>)
        ensures
            final(self)@ == old(self)@.insert(nickname@, connection),
            lists_others(texts(others@), old(self)@, nickname@),
    {
        let ghost before = self@;
        let ghost name = nickname@;
        let own = nickname.clone();
        map_insert(&mut self.map, nickname, connection);
        let everyone = map_keys(&self.map);
        let ghost all = texts(everyone@);
        let mut others: Vec<String> = Vec::new();
        let mut i: usize = 0;
        assert(texts(others@) =~= Seq::<Seq<char>>::empty());
        while i < everyone.len()
            invariant
                i <= everyone@.len(),
                own@ == name,
                all == texts(everyone@),
                all.no_duplicates(),
                texts(others@).no_duplicates(),
                forall|k: int|
                    0 <= k < others@.len() ==> among(all, i as int, #[trigger] texts(others@)[k]),
                forall|k: int| 0 <= k < others@.len() ==> #[trigger] texts(others@)[k] != name,
                forall|j: int|
                    0 <= j < i && all[j] != name ==> texts(others@).contains(#[trigger] all[j]),
            decreases everyone@.len() - i,
        {
            let ghost kept = texts(others@);
            if !same_text(everyone[i].as_str(), own.as_str()) {
                others.push(everyone[i].clone());
                proof {
                    let added = all[i as int];
                    let listed = texts(others@);
                    assert(listed =~= kept.push(added));
                    assert forall|k: int| 0 <= k < kept.len() implies kept[k] != added by {
                        assert(among(all, i as int, kept[k]));
                        let j = choose|j: int| 0 <= j < i && all[j] == kept[k];
                        assert(all[j] != all[i as int]);
                    }
                    assert forall|k: int| 0 <= k < listed.len() implies among(
                        all,
                        i + 1,
                        #[trigger] listed[k],
                    ) by {
                        if k < kept.len() {
                            assert(among(all, i as int, kept[k]));
                            let j = choose|j: int| 0 <= j < i && all[j] == kept[k];
                            assert(all[j] == listed[k]);
                        } else {
                            assert(all[i as int] == listed[k]);
                        }
                    }
                    assert forall|j: int| 0 <= j < i + 1 && all[j] != name implies listed.contains(
                        #[trigger] all[j],
                    ) by {
                        if j < i {
                            assert(kept.contains(all[j]));
                            let k = choose|k: int| 0 <= k < kept.len() && kept[k] == all[j];
                            assert(listed[k] == all[j]);
                        } else {
                            assert(listed[kept.len() as int] == all[j]);
                        }
                    }
                }
            } else {
                proof {
                    assert(all[i as int] == name);
                    assert forall|k: int| 0 <= k < kept.len() implies among(
                        all,
                        i + 1,
                        #[trigger] kept[k],
                    ) by {
                        assert(among(all, i as int, kept[k]));
                        let j = choose|j: int| 0 <= j < i && all[j] == kept[k];
                        assert(0 <= j < i + 1 && all[j] == kept[k]);
                    }
                }
            }
            i = i + 1;
        }
        proof {
            let listed = texts(others@);
            let wanted = before.dom().remove(name);
            assert(all.to_set() == before.insert(name, connection).dom());
            assert forall|n: Seq<char>| listed.to_set().contains(n) <==> wanted.contains(n) by {
                if listed.to_set().contains(n) {
                    let k = choose|k: int| 0 <= k < listed.len() && listed[k] == n;
                    assert(among(all, i as int, listed[k]));
                    let j = choose|j: int| 0 <= j < i && all[j] == listed[k];
                    assert(all.to_set().contains(all[j]));
                }
                if wanted.contains(n) {
                    assert(all.to_set().contains(n));
                    let j = choose|j: int| 0 <= j < all.len() && all[j] == n;
                    assert(listed.contains(all[j]));
                }
            }
            assert(listed.to_set() =~= wanted);
        }
        others
    }

    /// Takes `nickname` out of the directory, whichever connection holds it.
    pub fn disconnect(&mut self, nickname: &str)
        ensures
            final(self)@ == old(self)@.remove(nickname@),
    {
        map_remove(&mut self.map, nickname);
    }

    /// The connection that messages for `recipient` go to, if the recipient
    /// is registered.
    pub fn route(&self, recipient: &str) -> (connection: Option<u64>)
        ensures
            connection == holder(self@, recipient@),
    {
        map_get(&self.map, recipient)
    }

    /// Every registered nickname, once each, in no particular order.
    pub fn online(&self) -> (nicknames: Vec<String>)
        ensures
            texts(nicknames@).no_duplicates(),
            texts(nicknames@).to_set() == self@.dom(),
    {
        map_keys(&self.map)
    }
}

/// The sessions after the nicknames of `nicknames` have registered one after
/// the other, the one at position `i` for the connection `connections[i]`.
pub open spec fn registered_all(
    start: Map<Seq<char>, u64>,
    nicknames: Seq<Seq<char>>,
    connections: Seq<u64>,
) -> Map<Seq<char>, u64>
    decreases nicknames.len(),
{
    if nicknames.len() == 0 || connections.len() != nicknames.len() {
        start
    } else {
        registered_all(start, nicknames.drop_last(), connections.drop_last()).insert(
            nicknames.last(),
            connections.last(),
        )
    }
}

proof fn lemma_registered_domain(
    start: Map<Seq<char>, u64>,
    nicknames: Seq<Seq<char>>,
    connections: Seq<u64>,
)
    requires
        connections.len() == nicknames.len(),
    ensures
        registered_all(start, nicknames, connections).dom() == start.dom().union(
            nicknames.to_set(),
        ),
    decreases nicknames.len(),
{
    if nicknames.len() == 0 {
        assert(start.dom().union(nicknames.to_set()) =~= start.dom());
    } else {
        lemma_registered_domain(start, nicknames.drop_last(), connections.drop_last());
        let earlier = nicknames.drop_last();
        assert forall|n: Seq<char>|
            nicknames.to_set().contains(n) <==> (earlier.to_set().contains(n) || n
                == nicknames.last()) by {
            if nicknames.to_set().contains(n) {
                let k = choose|k: int| 0 <= k < nicknames.len() && nicknames[k] == n;
                if k < earlier.len() {
                    assert(earlier[k] == n);
                }
            }
            if earlier.to_set().contains(n) {
                let k = choose|k: int| 0 <= k < earlier.len() && earlier[k] == n;
                assert(nicknames[k] == n);
            }
            if n == nicknames.last() {
                assert(nicknames[nicknames.len() - 1] == n);
            }
        }
        assert(registered_all(start, nicknames, connections).dom() =~= start.dom().union(
            nicknames.to_set(),
        ));
    }
}

/// When peers register one after the other under nicknames that differ from
/// each other, the list that each of them is answered with names exactly those
/// who were online before the first of them and those who registered before
/// it; with nobody online at the start, exactly those who registered before
/// it.
pub proof fn lemma_register_replies(
    start: Map<Seq<char>, u64>,
    nicknames: Seq<Seq<char>>,
    connections: Seq<u64>,
    k: int,
    reply: Seq<Seq<char>>,
)
    requires
        connections.len() == nicknames.len(),
        nicknames.no_duplicates(),
        0 <= k < nicknames.len(),
        lists_others(
            reply,
            registered_all(start, nicknames.take(k), connections.take(k)),
            nicknames[k],
        ),
    ensures
        reply.to_set() == start.dom().union(nicknames.take(k).to_set()).remove(nicknames[k]),
        start.dom().len() == 0 && start.dom().finite() ==> reply.to_set() == nicknames.take(
            k,
        ).to_set(),
{
    lemma_registered_domain(start, nicknames.take(k), connections.take(k));
    let before = nicknames.take(k);
    if start.dom().len() == 0 && start.dom().finite() {
        assert(start.dom() =~= Set::<Seq<char>>::empty());
        assert forall|n: Seq<char>| before.to_set().contains(n) implies n != nicknames[k] by {
            let j = choose|j: int| 0 <= j < before.len() && before[j] == n;
            assert(nicknames[j] == n);
        }
        assert(start.dom().union(before.to_set()).remove(nicknames[k]) =~= before.to_set());
    }
}

/// When a nickname is registered a second time, the later connection holds
/// it: messages for the nickname go there, and no longer to the connection
/// that registered it first.
pub proof fn lemma_last_registrant_wins(
    start: Map<Seq<char>, u64>,
    nickname: Seq<char>,
    first: u64,
    second: u64,
)
    ensures
        holder(start.insert(nickname, first).insert(nickname, second), nickname) == Some(second),
        first != second ==> holder(
            start.insert(nickname, first).insert(nickname, second),
            nickname,
        ) != Some(first),
        start.insert(nickname, first).insert(nickname, second) == start.insert(nickname, second),
{
    assert(start.insert(nickname, first).insert(nickname, second) =~= start.insert(
        nickname,
        second,
    ));
}

} // verus!

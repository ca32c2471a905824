//! Connection state: the addresses at which registered clients read, and
//! the registry that the server keeps of them.
//!
//! Protocol: a client connects to the server and adds itself with a
//! connection request; only the server drops a client, either because the
//! client asked to leave or because the server found it invalid.

use vstd::prelude::*;
use crate::decimal::{decimal, u32_to_decimal};

verus! {

/// Where a client listens for packets, and the identity it registered with.
#[derive(Eq, PartialEq, Ord, PartialOrd, Debug)]
pub struct SocketReadAddress {
    pub read_host: String,
    pub read_port: u32,
    pub reader_id: String,
}

/// The value of a [`SocketReadAddress`].
pub struct SocketReadAddressView {
    pub read_host: Seq<char>,
    pub read_port: u32,
    pub reader_id: Seq<char>,
}

impl View for SocketReadAddress {
    type V = SocketReadAddressView;

    open spec fn view(&self) -> SocketReadAddressView {
        SocketReadAddressView {
            read_host: self.read_host@,
            read_port: self.read_port,
            reader_id: self.reader_id@,
        }
    }
}

/// The key under which a client is registered: `host:port`, the port in
/// decimal.
pub open spec fn registry_key(addr: SocketReadAddressView) -> Seq<char> {
    addr.read_host + seq![':'] + decimal(addr.read_port as nat)
}

/// Computes the registry key `host:port` of an address.
pub fn registry_key_of(addr: &SocketReadAddress) -> (key: String)
    ensures
        key@ == registry_key(addr@),
{
    let mut key = addr.read_host.clone();
    proof {
        reveal_strlit(":");
    }
    key.append(":");
    let port = u32_to_decimal(addr.read_port);
    key.append(port.as_str());
    key
}

/// Keeps track of the clients that are registered with a server.
pub trait ClientRegistryKeeper {
    /// Registers `handle`, replacing any client registered under its key.
    fn add_client(&mut self, handle: SocketReadAddress);

    /// Drops the client registered under the key of `handle`.
    fn remove_client(&mut self, handle: SocketReadAddress);
}

/// The abstract content of a registry: registered addresses by key.
pub type RegistryMap = Map<Seq<char>, SocketReadAddressView>;

/// The map that a list of `(key, address)` entries stands for.
pub open spec fn entries_map(s: Seq<(String, SocketReadAddress)>) -> RegistryMap
    decreases s.len(),
{
    if s.len() == 0 {
        Map::empty()
    } else {
        entries_map(s.drop_last()).insert(s.last().0@, s.last().1@)
    }
}

/// No key occurs twice among the entries.
pub open spec fn keys_distinct(s: Seq<(String, SocketReadAddress)>) -> bool {
    forall|i: int, j: int|
        0 <= i < s.len() && 0 <= j < s.len() && i != j ==> #[trigger] s[i].0@ != #[trigger] s[j].0@
}

/// A registry of clients keyed by `host:port`; each key occurs once. The
/// entries are kept in a vector of distinct keys, whose contents are a map
/// that the contracts state exactly; a hash map keyed by strings gives its
/// callers no such statement of what it holds.
pub struct ClientRegistry {
    entries: Vec<(String, SocketReadAddress)>,
}

impl View for ClientRegistry {
    type V = RegistryMap;

    closed spec fn view(&self) -> RegistryMap {
        entries_map(self.entries@)
    }
}

proof fn lemma_entries_map_lookup(s: Seq<(String, SocketReadAddress)>)
    requires
        keys_distinct(s),
    ensures
        entries_map(s).dom().finite(),
        entries_map(s).len() == s.len(),
        forall|i: int|
            0 <= i < s.len() ==> #[trigger] entries_map(s).dom().contains(s[i].0@)
                && entries_map(s)[s[i].0@] == s[i].1@,
        forall|k: Seq<char>|
            #[trigger] entries_map(s).dom().contains(k) ==> exists|i: int|
                0 <= i < s.len() && s[i].0@ == k,
    decreases s.len(),
{
    if s.len() > 0 {
        let t = s.drop_last();
        assert(keys_distinct(t)) by {
            assert forall|i: int, j: int|
                0 <= i < t.len() && 0 <= j < t.len() && i != j implies #[trigger] t[i].0@
                != #[trigger] t[j].0@ by {
                assert(t[i] == s[i] && t[j] == s[j]);
            }
        }
        lemma_entries_map_lookup(t);
        let last = s.last();
        assert(!entries_map(t).dom().contains(last.0@)) by {
            if entries_map(t).dom().contains(last.0@) {
                let i = choose|i: int| 0 <= i < t.len() && t[i].0@ == last.0@;
                assert(s[i].0@ == s[s.len() - 1].0@);
            }
        }
        assert forall|i: int| 0 <= i < s.len() implies #[trigger] entries_map(s).dom().contains(
            s[i].0@,
        ) && entries_map(s)[s[i].0@] == s[i].1@ by {
            if i < s.len() - 1 {
                assert(t[i] == s[i]);
                assert(s[i].0@ != s[s.len() - 1].0@);
            }
        }
        assert forall|k: Seq<char>| #[trigger] entries_map(s).dom().contains(k) implies exists|
            i: int,
        | 0 <= i < s.len() && s[i].0@ == k by {
            if k == last.0@ {
                assert(s[s.len() - 1].0@ == k);
            } else {
                let i = choose|i: int| 0 <= i < t.len() && t[i].0@ == k;
                assert(s[i] == t[i]);
            }
        }
    }
}

proof fn lemma_entries_map_update(
    s: Seq<(String, SocketReadAddress)>,
    i: int,
    e: (String, SocketReadAddress),
)
    requires
        keys_distinct(s),
        0 <= i < s.len(),
        s[i].0@ == e.0@,
    ensures
        entries_map(s.update(i, e)) == entries_map(s).insert(e.0@, e.1@),
    decreases s.len(),
{
    let u = s.update(i, e);
    let t = s.drop_last();
    if i == s.len() - 1 {
        assert(u.drop_last() =~= t);
        assert(entries_map(u) == entries_map(t).insert(e.0@, e.1@));
        assert(entries_map(s).insert(e.0@, e.1@) =~= entries_map(t).insert(e.0@, e.1@));
    } else {
        assert(keys_distinct(t)) by {
            assert forall|a: int, b: int|
                0 <= a < t.len() && 0 <= b < t.len() && a != b implies #[trigger] t[a].0@
                != #[trigger] t[b].0@ by {
                assert(t[a] == s[a] && t[b] == s[b]);
            }
        }
        assert(t[i] == s[i]);
        lemma_entries_map_update(t, i, e);
        assert(u.drop_last() =~= t.update(i, e));
        assert(u.last() == s.last());
        assert(s.last().0@ != e.0@) by {
            assert(s[s.len() - 1].0@ != s[i].0@);
        }
        assert(entries_map(u) =~= entries_map(s).insert(e.0@, e.1@));
    }
}

impl ClientRegistry {
    #[verifier::type_invariant]
    spec fn wf(self) -> bool {
        keys_distinct(self.entries@)
    }

    /// An empty registry.
    pub fn new() -> (r: ClientRegistry)
        ensures
            r@ == RegistryMap::empty(),
    {
        ClientRegistry { entries: Vec::new() }
    }

    /// The number of registered clients.
    pub fn len(&self) -> (n: usize)
        ensures
            n == self@.len(),
            self@.dom().finite(),
    {
        proof {
            use_type_invariant(self);
            lemma_entries_map_lookup(self.entries@);
        }
        self.entries.len()
    }

    /// The client registered under `key`, if any.
    pub fn get(&self, key: &str) -> (r: Option<&SocketReadAddress>)
        ensures
            match r {
                Some(a) => self@.dom().contains(key@) && a@ == self@[key@],
                None => !self@.dom().contains(key@),
            },
    {
        proof {
            use_type_invariant(self);
            lemma_entries_map_lookup(self.entries@);
        }
        let wanted = key.to_owned();
        let mut i: usize = 0;
        while i < self.entries.len()
            invariant
                i <= self.entries@.len(),
                wanted@ == key@,
                forall|j: int| 0 <= j < i ==> self.entries@[j].0@ != key@,
            decreases self.entries@.len() - i,
        {
            if self.entries[i].0 == wanted {
                proof {
                    use_type_invariant(self);
                    lemma_entries_map_lookup(self.entries@);
                }
                return Some(&self.entries[i].1);
            }
            i = i + 1;
        }
        None
    }

    /// The position of the entry whose key is `key`, if any.
    fn position(&self, key: &String) -> (r: Option<usize>)
        ensures
            match r {
                Some(i) => i < self.entries@.len() && self.entries@[i as int].0@ == key@,
                None => forall|j: int|
                    0 <= j < self.entries@.len() ==> #[trigger] self.entries@[j].0@ != key@,
            },
    {
        let mut i: usize = 0;
        while i < self.entries.len()
            invariant
                i <= self.entries@.len(),
                forall|j: int| 0 <= j < i ==> #[trigger] self.entries@[j].0@ != key@,
            decreases self.entries@.len() - i,
        {
            if self.entries[i].0 == *key {
                return Some(i);
            }
            i = i + 1;
        }
        None
    }

    /// Inserts `addr` under `key`, replacing what was registered there.
    fn insert_entry(&mut self, key: String, addr: SocketReadAddress)
        ensures
            final(self)@ == old(self)@.insert(key@, addr@),
    {
        proof {
            use_type_invariant(&*self);
        }
        let ghost before = self.entries@;
        let ghost k = key@;
        let ghost v = addr@;
        let pos = self.position(&key);
        let mut entries: Vec<(String, SocketReadAddress)> = Vec::new();
        std::mem::swap(&mut entries, &mut self.entries);
        match pos {
            Some(i) => {
                proof {
                    lemma_entries_map_update(before, i as int, (key, addr));
                }
                entries.set(i, (key, addr));
                assert(entries@ == before.update(i as int, (key, addr)));
                assert(keys_distinct(entries@)) by {
                    assert forall|a: int, b: int|
                        0 <= a < entries@.len() && 0 <= b < entries@.len() && a != b implies
                        #[trigger] entries@[a].0@ != #[trigger] entries@[b].0@ by {
                        assert(entries@[a].0@ == before[a].0@);
                        assert(entries@[b].0@ == before[b].0@);
                    }
                }
            },
            None => {
                entries.push((key, addr));
                assert(entries@.drop_last() =~= before);
                assert(keys_distinct(entries@)) by {
                    assert forall|a: int, b: int|
                        0 <= a < entries@.len() && 0 <= b < entries@.len() && a != b implies
                        #[trigger] entries@[a].0@ != #[trigger] entries@[b].0@ by {
                        if a < before.len() {
                            assert(entries@[a] == before[a]);
                        }
                        if b < before.len() {
                            assert(entries@[b] == before[b]);
                        }
                    }
                }
            },
        }
        self.entries = entries;
    }

    /// Drops the entry registered under `key`, if there is one.
    fn remove_entry(&mut self, key: &String)
        ensures
            final(self)@ == old(self)@.remove(key@),
    {
        proof {
            use_type_invariant(&*self);
            lemma_entries_map_lookup(self.entries@);
        }
        match self.position(key) {
            Some(i) => {
                let ghost before = self.entries@;
                let mut entries: Vec<(String, SocketReadAddress)> = Vec::new();
                std::mem::swap(&mut entries, &mut self.entries);
                let _ = entries.remove(i);
                proof {
                    lemma_entries_map_remove(before, i as int);
                }
                self.entries = entries;
            },
            None => {
                assert(self@ =~= self@.remove(key@));
            },
        }
    }
}

proof fn lemma_entries_map_remove(s: Seq<(String, SocketReadAddress)>, i: int)
    requires
        keys_distinct(s),
        0 <= i < s.len(),
    ensures
        keys_distinct(s.remove(i)),
        entries_map(s.remove(i)) == entries_map(s).remove(s[i].0@),
    decreases s.len(),
{
    let r = s.remove(i);
    assert(keys_distinct(r)) by {
        assert forall|a: int, b: int|
            0 <= a < r.len() && 0 <= b < r.len() && a != b implies #[trigger] r[a].0@
            != #[trigger] r[b].0@ by {
            let a2 = if a < i { a } else { a + 1 };
            let b2 = if b < i { b } else { b + 1 };
            assert(r[a] == s[a2] && r[b] == s[b2]);
        }
    }
    lemma_entries_map_lookup(s);
    lemma_entries_map_lookup(r);
    let m = entries_map(s).remove(s[i].0@);
    assert forall|k: Seq<char>| #[trigger] entries_map(r).dom().contains(k) == m.dom().contains(k)
        by {
        if entries_map(r).dom().contains(k) {
            let a = choose|a: int| 0 <= a < r.len() && r[a].0@ == k;
            let a2 = if a < i { a } else { a + 1 };
            assert(r[a] == s[a2]);
            assert(s[a2].0@ != s[i].0@);
        }
        if m.dom().contains(k) {
            let a = choose|a: int| 0 <= a < s.len() && s[a].0@ == k;
            assert(a != i);
            let a2 = if a < i { a } else { a - 1 };
            assert(r[a2] == s[a]);
        }
    }
    assert forall|k: Seq<char>| #[trigger] entries_map(r).dom().contains(k) implies entries_map(
        r,
    )[k] == m[k] by {
        let a = choose|a: int| 0 <= a < r.len() && r[a].0@ == k;
        let a2 = if a < i { a } else { a + 1 };
        assert(r[a] == s[a2]);
    }
    assert(entries_map(r) =~= m);
}

/// Law: after a client is added, looking up its key gives it back, every
/// other key is left as it was, and the count grows by one unless the key
/// was already registered.
pub proof fn law_add_client_then_lookup(before: RegistryMap, handle: SocketReadAddressView)
    requires
        before.dom().finite(),
    ensures
        ({
            let after = before.insert(registry_key(handle), handle);
            &&& after.dom().contains(registry_key(handle))
            &&& after[registry_key(handle)] == handle
            &&& forall|k: Seq<char>|
                k != registry_key(handle) ==> (#[trigger] after.dom().contains(k)
                    == before.dom().contains(k) && (before.dom().contains(k) ==> after[k]
                    == before[k]))
            &&& after.len() == if before.dom().contains(registry_key(handle)) {
                before.len()
            } else {
                before.len() + 1
            }
        }),
{
    let key = registry_key(handle);
    let after = before.insert(key, handle);
    if before.dom().contains(key) {
        assert(after.dom() =~= before.dom());
    } else {
        assert(after.dom() =~= before.dom().insert(key));
    }
}

/// Law: dropping a client that was just added under a key that was free
/// gives back the registry as it was before.
pub proof fn law_remove_client_undoes_add_client(
    before: RegistryMap,
    handle: SocketReadAddressView,
)
    requires
        !before.dom().contains(registry_key(handle)),
    ensures
        before.insert(registry_key(handle), handle).remove(registry_key(handle)) == before,
{
    assert(before.insert(registry_key(handle), handle).remove(registry_key(handle)) =~= before);
}

impl ClientRegistryKeeper for ClientRegistry {
    /// Registers `handle` under `host:port`, replacing any earlier client
    /// registered there.
    fn add_client(&mut self, handle: SocketReadAddress)
        ensures
            final(self)@ == old(self)@.insert(registry_key(handle@), handle@),
    {
        let key = registry_key_of(&handle);
        self.insert_entry(key, handle);
    }

    /// Drops the client registered under `host:port` of `handle`.
    fn remove_client(&mut self, handle: SocketReadAddress)
        ensures
            final(self)@ == old(self)@.remove(registry_key(handle@)),
    {
        let key = registry_key_of(&handle);
        self.remove_entry(&key);
    }
}

} // verus!

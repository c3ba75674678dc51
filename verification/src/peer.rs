//! The peers found on the local network, kept by address: a later discovery
//! of the same address replaces the earlier one.

use vstd::prelude::*;

verus! {

broadcast use vstd::string::group_string_axioms;

/// A device that announced itself: where it listens and what it is called.
#[derive(Debug)]
pub struct Peer {
    pub address: String,
    pub port: u16,
    pub name: String,
}

impl Clone for Peer {
    fn clone(&self) -> (p: Peer)
        ensures
            p == *self,
    {
        Peer { address: self.address.clone(), port: self.port, name: self.name.clone() }
    }
}

/// No address occurs twice in `entries`.
pub open spec fn addresses_distinct(entries: Seq<Peer>) -> bool {
    forall|i: int, j: int|
        #![trigger entries[i], entries[j]]
        0 <= i < j < entries.len() ==> entries[i].address@ != entries[j].address@
}

/// Whether some entry has address `a`.
pub open spec fn has_address(entries: Seq<Peer>, a: Seq<char>) -> bool {
    exists|i: int| 0 <= i < entries.len() && #[trigger] entries[i].address@ == a
}

/// The index of an entry with address `a`.
pub open spec fn index_of(entries: Seq<Peer>, a: Seq<char>) -> int {
    choose|i: int| 0 <= i < entries.len() && #[trigger] entries[i].address@ == a
}

/// Where addresses are distinct, the entry with a given address is the one at its index.
proof fn lemma_index_of(entries: Seq<Peer>, i: int)
    requires
        addresses_distinct(entries),
        0 <= i < entries.len(),
    ensures
        has_address(entries, entries[i].address@),
        index_of(entries, entries[i].address@) == i,
{
    let a = entries[i].address@;
    assert(0 <= i < entries.len() && entries[i].address@ == a);
    let j = index_of(entries, a);
    if j != i {
        if j < i {
            assert(entries[j].address@ != entries[i].address@);
        } else {
            assert(entries[i].address@ != entries[j].address@);
        }
    }
}

/// The map from address to peer that `entries` stand for.
pub open spec fn entries_view(entries: Seq<Peer>) -> Map<Seq<char>, Peer> {
    Map::new(|a: Seq<char>| has_address(entries, a), |a: Seq<char>| entries[index_of(entries, a)])
}

/// Writing `peer` over the entry at `i`, which has the same address, or
/// appending it where no entry has its address, makes the map hold `peer` at
/// that address and keeps the addresses distinct.
proof fn lemma_record(old_entries: Seq<Peer>, new_entries: Seq<Peer>, peer: Peer, i: int)
    requires
        addresses_distinct(old_entries),
        0 <= i <= old_entries.len(),
        i < old_entries.len() ==> old_entries[i].address@ == peer.address@ && new_entries
            == old_entries.update(i, peer),
        i == old_entries.len() ==> new_entries == old_entries.push(peer) && forall|j: int|
            0 <= j < old_entries.len() ==> #[trigger] old_entries[j].address@ != peer.address@,
    ensures
        addresses_distinct(new_entries),
        entries_view(new_entries) == entries_view(old_entries).insert(peer.address@, peer),
{
    let e = new_entries;
    let a = peer.address@;
    assert forall|x: int, y: int| 0 <= x < y < e.len() implies #[trigger] e[x].address@
        != #[trigger] e[y].address@ by {
        if y < old_entries.len() {
            assert(old_entries[x].address@ != old_entries[y].address@);
        } else {
            assert(old_entries[x].address@ != a);
        }
    }
    assert(e[i] == peer);
    lemma_index_of(e, i);
    let before = entries_view(old_entries);
    let after = entries_view(e);
    assert forall|b: Seq<char>| #[trigger] after.dom().contains(b) <==> before.insert(
        a,
        peer,
    ).dom().contains(b) by {
        if b != a {
            if has_address(e, b) {
                let k = index_of(e, b);
                assert(old_entries[k].address@ == b);
            }
            if has_address(old_entries, b) {
                let k = index_of(old_entries, b);
                assert(e[k].address@ == b);
            }
        }
    }
    assert forall|b: Seq<char>| #[trigger] after.dom().contains(b) implies after[b] == before.insert(
        a,
        peer,
    )[b] by {
        if b != a {
            let k = index_of(e, b);
            lemma_index_of(e, k);
            assert(old_entries[k] == e[k]);
            lemma_index_of(old_entries, k);
        }
    }
    assert(after =~= before.insert(a, peer));
}

/// The peers found so far, at most one per address.
#[derive(Debug)]
pub struct Peers {
    entries: Vec<Peer>,
}

impl View for Peers {
    type V = Map<Seq<char>, Peer>;

    /// Each address found, with the peer last found there.
    closed spec fn view(&self) -> Map<Seq<char>, Peer> {
        entries_view(self.entries@)
    }
}

impl Clone for Peers {
    fn clone(&self) -> (p: Peers)
        ensures
            p@ == self@,
    {
        proof {
            use_type_invariant(self);
        }
        let mut entries: Vec<Peer> = Vec::new();
        let n = self.entries.len();
        let mut i: usize = 0;
        while i < n
            invariant
                n == self.entries@.len(),
                0 <= i <= n,
                entries@ == self.entries@.take(i as int),
            decreases n - i,
        {
            entries.push(self.entries[i].clone());
            assert(entries@ =~= self.entries@.take(i + 1));
            i = i + 1;
        }
        assert(entries@ =~= self.entries@);
        Peers { entries }
    }
}

impl Peers {
    /// No address occurs twice.
    #[verifier::type_invariant]
    closed spec fn wf(&self) -> bool {
        addresses_distinct(self.entries@)
    }

    /// No peer yet.
    pub fn new() -> (p: Peers)
        ensures
            p@ == Map::<Seq<char>, Peer>::empty(),
    {
        let p = Peers { entries: Vec::new() };
        assert(p@ =~= Map::<Seq<char>, Peer>::empty());
        p
    }

    /// The number of addresses found.
    pub fn len(&self) -> (n: usize)
        ensures
            n == self@.dom().len(),
            self@.dom().finite(),
    {
        proof {
            use_type_invariant(self);
            self.lemma_dom();
        }
        self.entries.len()
    }

    /// The addresses found are those of the entries, one per entry.
    proof fn lemma_dom(&self)
        requires
            self.wf(),
        ensures
            self@.dom().finite(),
            self@.dom().len() == self.entries@.len(),
    {
        let e = self.entries@;
        let addrs = e.map_values(|p: Peer| p.address@);
        assert(self@.dom() =~= addrs.to_set()) by {
            assert forall|a: Seq<char>| self@.dom().contains(a) implies addrs.to_set().contains(a) by {
                let i = index_of(e, a);
                assert(addrs[i] == a);
            }
            assert forall|a: Seq<char>| addrs.to_set().contains(a) implies self@.dom().contains(a) by {
                let i = choose|i: int| 0 <= i < addrs.len() && addrs[i] == a;
                assert(e[i].address@ == a);
            }
        }
        assert(addrs.no_duplicates()) by {
            assert forall|i: int, j: int| 0 <= i < addrs.len() && 0 <= j < addrs.len() && i != j
                implies addrs[i] != addrs[j] by {
                if i < j {
                    assert(e[i].address@ != e[j].address@);
                } else {
                    assert(e[j].address@ != e[i].address@);
                }
            }
        }
        addrs.unique_seq_to_set();
    }

    /// Records a discovered peer; one found before at the same address is replaced.
    pub fn insert(&mut self, peer: Peer)
        ensures
            final(self)@ == old(self)@.insert(peer.address@, peer),
    {
        proof {
            use_type_invariant(&*self);
        }
        let mut entries: Vec<Peer> = Vec::new();
        std::mem::swap(&mut entries, &mut self.entries);
        let ghost old_entries = entries@;
        let n = entries.len();
        let mut i: usize = 0;
        while i < n
            invariant
                n == entries@.len(),
                entries@ == old_entries,
                0 <= i <= n,
                forall|j: int| 0 <= j < i ==> #[trigger] entries@[j].address@ != peer.address@,
            ensures
                0 <= i <= n,
                entries@ == old_entries,
                i < n ==> entries@[i as int].address@ == peer.address@,
                forall|j: int| 0 <= j < i ==> #[trigger] entries@[j].address@ != peer.address@,
            decreases n - i,
        {
            if entries[i].address == peer.address {
                break;
            }
            i = i + 1;
        }
        let ghost p = peer;
        if i < n {
            entries.set(i, peer);
        } else {
            entries.push(peer);
        }
        proof {
            lemma_record(old_entries, entries@, p, i as int);
        }
        self.entries = entries;
    }

    /// The peer found at `address`, if one was.
    pub fn get(&self, address: &String) -> (p: Option<&Peer>)
        ensures
            match p {
                Some(p) => self@.contains_key(address@) && *p == self@[address@],
                None => !self@.contains_key(address@),
            },
    {
        proof {
            use_type_invariant(self);
        }
        let n = self.entries.len();
        let mut i: usize = 0;
        while i < n
            invariant
                n == self.entries@.len(),
                addresses_distinct(self.entries@),
                0 <= i <= n,
                forall|j: int| 0 <= j < i ==> #[trigger] self.entries@[j].address@ != address@,
            decreases n - i,
        {
            if self.entries[i].address == *address {
                proof {
                    lemma_index_of(self.entries@, i as int);
                }
                return Some(&self.entries[i]);
            }
            i = i + 1;
        }
        None
    }

    /// Every peer found, each address once, in no particular order.
    pub fn values(&self) -> (v: &Vec<Peer>)
        ensures
            addresses_distinct(v@),
            forall|i: int|
                0 <= i < v.len() ==> self@.contains_key(#[trigger] v@[i].address@) && self@[v@[i].address@]
                    == v@[i],
            forall|a: Seq<char>| #[trigger] self@.contains_key(a) ==> has_address(v@, a),
    {
        proof {
            use_type_invariant(self);
            assert forall|i: int| 0 <= i < self.entries@.len() implies self@.contains_key(
                #[trigger] self.entries@[i].address@,
            ) && self@[self.entries@[i].address@] == self.entries@[i] by {
                lemma_index_of(self.entries@, i);
            }
        }
        &self.entries
    }
}

/// Recording a peer makes it the one found at its address, and leaves every
/// other address as it was.
pub proof fn lemma_insert_then_get(before: Peers, after: Peers, peer: Peer, other: Seq<char>)
    requires
        after@ == before@.insert(peer.address@, peer),
        other != peer.address@,
    ensures
        after@.contains_key(peer.address@),
        after@[peer.address@] == peer,
        after@.contains_key(other) == before@.contains_key(other),
        before@.contains_key(other) ==> after@[other] == before@[other],
{
}

} // verus!

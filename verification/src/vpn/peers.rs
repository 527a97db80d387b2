//! The peer table: the validated remote peers of one registration, keyed by
//! public key, iterable in registration order, and read-only once built.

use vstd::prelude::*;
use crate::addr::{IpAddress, SockAddress};

verus! {

/// One reachable overlay peer. Every retained record holds a 32-byte public
/// key and a parsed overlay address; the transport endpoint is optional.
#[derive(Debug)]
pub struct PeerRecord {
    pub public_key: Vec<u8>,
    pub overlay_address: IpAddress,
    pub endpoint: Option<SockAddress>,
}

/// The mathematical value of a `PeerRecord`.
pub struct PeerView {
    pub public_key: Seq<u8>,
    pub overlay_address: IpAddress,
    pub endpoint: Option<SockAddress>,
}

impl View for PeerRecord {
    type V = PeerView;

    open spec fn view(&self) -> PeerView {
        PeerView {
            public_key: self.public_key@,
            overlay_address: self.overlay_address,
            endpoint: self.endpoint,
        }
    }
}

impl DeepView for PeerRecord {
    type V = PeerView;

    open spec fn deep_view(&self) -> PeerView {
        self.view()
    }
}

impl Clone for PeerRecord {
    /// A clone carries the same key, address and endpoint.
    fn clone(&self) -> (r: Self)
        ensures
            r@ == self@,
    {
        PeerRecord {
            public_key: self.public_key.clone(),
            overlay_address: self.overlay_address,
            endpoint: self.endpoint,
        }
    }
}

/// A retained peer is valid: its key is exactly 32 bytes.
pub open spec fn spec_peer_wf(p: PeerView) -> bool {
    p.public_key.len() == 32
}

/// Whether some peer in the sequence carries the given key.
pub open spec fn spec_has_key(s: Seq<PeerView>, k: Seq<u8>) -> bool {
    exists|i: int| 0 <= i < s.len() && (#[trigger] s[i]).public_key == k
}

/// No two peers share a key.
pub open spec fn spec_unique_keys(s: Seq<PeerView>) -> bool {
    forall|i: int, j: int|
        0 <= i < j < s.len() ==> (#[trigger] s[i]).public_key != (#[trigger] s[j]).public_key
}

/// Keep-first deduplication by public key: a peer stays exactly when no
/// earlier peer carries its key.
pub open spec fn spec_dedup(s: Seq<PeerView>) -> Seq<PeerView>
    decreases s.len(),
{
    if s.len() == 0 {
        Seq::<PeerView>::empty()
    } else {
        let d = spec_dedup(s.drop_last());
        if spec_has_key(s.drop_last(), s.last().public_key) {
            d
        } else {
            d.push(s.last())
        }
    }
}

/// Law: deduplication keeps exactly the keys that were present.
pub proof fn lemma_dedup_keys(s: Seq<PeerView>)
    ensures
        forall|k: Seq<u8>| #[trigger] spec_has_key(spec_dedup(s), k) <==> spec_has_key(s, k),
    decreases s.len(),
{
    if s.len() > 0 {
        lemma_dedup_keys(s.drop_last());
        let d = spec_dedup(s.drop_last());
        let last = s.last();
        assert forall|k: Seq<u8>| #[trigger]
            spec_has_key(spec_dedup(s), k) <==> spec_has_key(s, k) by {
            if spec_has_key(s, k) {
                let i = choose|i: int| 0 <= i < s.len() && (#[trigger] s[i]).public_key == k;
                if i < s.len() - 1 {
                    assert(s.drop_last()[i] == s[i]);
                    assert(spec_has_key(s.drop_last(), k));
                    assert(spec_has_key(d, k));
                    if !spec_has_key(s.drop_last(), last.public_key) {
                        let w = choose|w: int| 0 <= w < d.len() && (#[trigger] d[w]).public_key == k;
                        assert(spec_dedup(s)[w].public_key == k);
                    }
                } else {
                    if spec_has_key(s.drop_last(), last.public_key) {
                        assert(spec_has_key(d, last.public_key));
                    } else {
                        assert(spec_dedup(s).last().public_key == k);
                    }
                }
            }
            if spec_has_key(spec_dedup(s), k) {
                let i = choose|i: int|
                    0 <= i < spec_dedup(s).len() && (#[trigger] spec_dedup(s)[i]).public_key == k;
                if spec_has_key(s.drop_last(), last.public_key) {
                    assert(spec_has_key(s.drop_last(), k));
                    let w = choose|w: int|
                        0 <= w < s.drop_last().len() && (#[trigger] s.drop_last()[w]).public_key
                            == k;
                    assert(s[w] == s.drop_last()[w]);
                } else {
                    if i < d.len() {
                        assert(spec_has_key(d, k));
                        let w = choose|w: int|
                            0 <= w < s.drop_last().len() && (#[trigger] s.drop_last()[w]).public_key
                                == k;
                        assert(s[w] == s.drop_last()[w]);
                    } else {
                        assert(spec_dedup(s)[i] == last);
                        assert(s[s.len() - 1].public_key == k);
                    }
                }
            }
        }
    }
}

/// Law: after deduplication, every key appears on at most one peer.
pub proof fn lemma_dedup_unique(s: Seq<PeerView>)
    ensures
        spec_unique_keys(spec_dedup(s)),
    decreases s.len(),
{
    if s.len() > 0 {
        lemma_dedup_unique(s.drop_last());
        lemma_dedup_keys(s.drop_last());
        let d = spec_dedup(s.drop_last());
        let last = s.last();
        if !spec_has_key(s.drop_last(), last.public_key) {
            assert forall|i: int, j: int|
                0 <= i < j < spec_dedup(s).len() implies (#[trigger] spec_dedup(
                s,
            )[i]).public_key != (#[trigger] spec_dedup(s)[j]).public_key by {
                if j == spec_dedup(s).len() - 1 {
                    assert(spec_dedup(s)[i] == d[i]);
                    if d[i].public_key == last.public_key {
                        assert(spec_has_key(d, last.public_key));
                    }
                } else {
                    assert(spec_dedup(s)[i] == d[i]);
                    assert(spec_dedup(s)[j] == d[j]);
                }
            }
        }
    }
}

/// Law: deduplication only keeps peers that were in the sequence.
pub proof fn lemma_dedup_elements(s: Seq<PeerView>)
    ensures
        forall|i: int|
            0 <= i < spec_dedup(s).len() ==> s.contains(#[trigger] spec_dedup(s)[i]),
    decreases s.len(),
{
    if s.len() > 0 {
        lemma_dedup_elements(s.drop_last());
        let d = spec_dedup(s.drop_last());
        assert forall|i: int|
            0 <= i < spec_dedup(s).len() implies s.contains(#[trigger] spec_dedup(s)[i]) by {
            if i < d.len() {
                assert(s.drop_last().contains(d[i]));
                let w = choose|w: int| 0 <= w < s.drop_last().len() && s.drop_last()[w] == d[i];
                assert(s[w] == d[i]);
            } else {
                assert(spec_dedup(s)[i] == s.last());
                assert(s[s.len() - 1] == s.last());
            }
        }
    }
}

/// Compares two byte strings.
pub fn bytes_eq(a: &[u8], b: &[u8]) -> (r: bool)
    ensures
        r == (a@ == b@),
{
    if a.len() != b.len() {
        return false;
    }
    let mut i: usize = 0;
    while i < a.len()
        invariant
            0 <= i <= a@.len() == b@.len(),
            forall|k: int| 0 <= k < i ==> a@[k] == b@[k],
        decreases a@.len() - i,
    {
        if a[i] != b[i] {
            return false;
        }
        i = i + 1;
    }
    proof {
        assert(a@ =~= b@);
    }
    true
}

/// Whether some record in the vector carries the given key.
fn vec_has_key(v: &Vec<PeerRecord>, key: &[u8]) -> (r: bool)
    ensures
        r == spec_has_key(v.deep_view(), key@),
{
    let mut j: usize = 0;
    while j < v.len()
        invariant
            0 <= j <= v@.len(),
            v.deep_view().len() == v@.len(),
            forall|k: int| 0 <= k < j ==> (#[trigger] v.deep_view()[k]).public_key != key@,
        decreases v@.len() - j,
    {
        proof {
            assert(v.deep_view()[j as int] == v@[j as int]@);
        }
        if bytes_eq(v[j].public_key.as_slice(), key) {
            proof {
                assert((v.deep_view()[j as int]).public_key == key@);
            }
            return true;
        }
        j = j + 1;
    }
    false
}

/// The validated peers of one registration: keyed by public key, iterable in
/// registration order, read-only once built. A fresh registration builds a
/// fresh table; there is no incremental merge.
pub struct PeerTable {
    peers: Vec<PeerRecord>,
}

impl View for PeerTable {
    type V = Seq<PeerView>;

    closed spec fn view(&self) -> Seq<PeerView> {
        self.peers.deep_view()
    }
}

impl PeerTable {
    /// No two entries share a key, and every entry is a valid peer.
    pub open spec fn wf(&self) -> bool {
        &&& spec_unique_keys(self@)
        &&& forall|i: int| 0 <= i < self@.len() ==> spec_peer_wf(#[trigger] self@[i])
    }

    /// An empty table.
    pub fn empty() -> (r: PeerTable)
        ensures
            r@ =~= Seq::<PeerView>::empty(),
            r.wf(),
    {
        let t = PeerTable { peers: Vec::new() };
        proof {
            assert(t@ =~= Seq::<PeerView>::empty());
        }
        t
    }

    /// Builds the table from a registration's peers, in their order, keeping
    /// the first record of every key; keys are unique afterwards, and when
    /// every given peer is valid the table is well formed.
    pub fn build(peers: &Vec<PeerRecord>) -> (r: PeerTable)
        ensures
            r@ == spec_dedup(peers.deep_view()),
            spec_unique_keys(r@),
            (forall|i: int|
                0 <= i < peers.deep_view().len() ==> spec_peer_wf(#[trigger] peers.deep_view()[i]))
                ==> r.wf(),
    {
        proof {
            lemma_dedup_elements(peers.deep_view());
            if forall|i: int|
                0 <= i < peers.deep_view().len() ==> spec_peer_wf(#[trigger] peers.deep_view()[i]) {
                assert forall|i: int|
                    0 <= i < spec_dedup(peers.deep_view()).len() implies spec_peer_wf(
                    #[trigger] spec_dedup(peers.deep_view())[i],
                ) by {
                    let p = spec_dedup(peers.deep_view())[i];
                    let w = choose|w: int|
                        0 <= w < peers.deep_view().len() && peers.deep_view()[w] == p;
                    assert(spec_peer_wf(peers.deep_view()[w]));
                }
            }
        }
        let ghost src = peers.deep_view();
        let mut kept: Vec<PeerRecord> = Vec::new();
        let mut i: usize = 0;
        proof {
            assert(src.take(0) =~= Seq::<PeerView>::empty());
            assert(kept.deep_view() =~= spec_dedup(src.take(0)));
        }
        while i < peers.len()
            invariant
                0 <= i <= peers@.len(),
                src == peers.deep_view(),
                src.len() == peers@.len(),
                kept.deep_view() =~= spec_dedup(src.take(i as int)),
            decreases peers@.len() - i,
        {
            proof {
                assert(src[i as int] == peers@[i as int]@);
            }
            let seen = vec_has_key(&kept, peers[i].public_key.as_slice());
            proof {
                lemma_dedup_keys(src.take(i as int));
                assert(src.take(i + 1).drop_last() =~= src.take(i as int));
                assert(src.take(i + 1).last() == src[i as int]);
            }
            if !seen {
                let ghost before = kept.deep_view();
                let p = peers[i].clone();
                kept.push(p);
                proof {
                    assert(kept.deep_view() =~= before.push(peers@[i as int]@));
                }
            }
            i = i + 1;
        }
        proof {
            assert(src.take(src.len() as int) =~= src);
            lemma_dedup_unique(src);
        }
        PeerTable { peers: kept }
    }

    /// How many peers the table holds.
    pub fn len(&self) -> (r: usize)
        ensures
            r == self@.len(),
    {
        self.peers.len()
    }

    /// The peer at an index, in registration order.
    pub fn get(&self, i: usize) -> (r: &PeerRecord)
        requires
            i < self@.len(),
        ensures
            r@ == self@[i as int],
    {
        proof {
            assert(self@[i as int] == self.peers@[i as int]@);
        }
        &self.peers[i]
    }

    /// Looks a peer up by its public key: the record carrying that key, or
    /// nothing when no peer carries it.
    pub fn lookup(&self, key: &[u8]) -> (r: Option<&PeerRecord>)
        ensures
            match r {
                Some(p) => p@.public_key == key@ && self@.contains(p@),
                None => !spec_has_key(self@, key@),
            },
    {
        let mut i: usize = 0;
        while i < self.peers.len()
            invariant
                0 <= i <= self@.len() == self.peers@.len(),
                forall|k: int| 0 <= k < i ==> (#[trigger] self@[k]).public_key != key@,
            decreases self@.len() - i,
        {
            proof {
                assert(self@[i as int] == self.peers@[i as int]@);
            }
            if bytes_eq(self.peers[i].public_key.as_slice(), key) {
                return Some(&self.peers[i]);
            }
            i = i + 1;
        }
        None
    }
}

} // verus!

//! Consistent hash ring mapping bucket keys to rate-limiter replicas.
//!
//! Each replica node is hashed to a position on a logical ring; a bucket
//! key is hashed to a position and owned by the node at the smallest ring
//! position at or after it, wrapping around to the smallest position.
//! Adding a node moves only the keys that the new node takes over, so the
//! bucket-to-replica assignment stays stable as the replica set grows.

use vstd::prelude::*;
use vstd::string::*;

verus! {

// ---------------------------------------------------------------------------
// Node identity
// ---------------------------------------------------------------------------

/// Mathematical identity of a replica node: its address and port.
pub struct NodeV {
    pub address: Seq<char>,
    pub port: u16,
}

/// One rate-limiting-service replica, identified by address and port.
pub struct NodeAddr {
    pub address: String,
    pub port: u16,
}

impl View for NodeAddr {
    type V = NodeV;

    open spec fn view(&self) -> NodeV {
        NodeV { address: self.address@, port: self.port }
    }
}

impl Clone for NodeAddr {
    fn clone(&self) -> (r: Self)
        ensures
            r@ == self@,
    {
        NodeAddr { address: self.address.clone(), port: self.port }
    }
}

// ---------------------------------------------------------------------------
// Position hashing (Fowler-Noll-Vo style, 64 bit)
// ---------------------------------------------------------------------------

pub const FNV_OFFSET: u64 = 0xcbf29ce484222325;

pub const FNV_PRIME: u64 = 0x100000001b3;

/// Folds one value into a running hash.
pub open spec fn hash_step(h: u64, x: u64) -> u64 {
    (h ^ x).wrapping_mul(FNV_PRIME)
}

/// Folds a character sequence into a running hash.
pub open spec fn hash_chars(s: Seq<char>, h: u64) -> u64
    decreases s.len(),
{
    if s.len() == 0 {
        h
    } else {
        hash_step(hash_chars(s.drop_last(), h), s.last() as u64)
    }
}

/// The ring position of a node: a hash of its address and port.
pub open spec fn node_pos(n: NodeV) -> u64 {
    hash_step(hash_chars(n.address, FNV_OFFSET), n.port as u64)
}

/// The ring position of a bucket key.
pub open spec fn key_pos(key: u64) -> u64 {
    hash_step(FNV_OFFSET, key)
}

/// The multiplicative inverse of `FNV_PRIME` modulo two to the 64th.
pub const FNV_PRIME_INV: u64 = 0xce965057aff6957b;

/// A bucket key whose ring position is `p`: key hashing is onto, so
/// every ring position is some key's position.
pub open spec fn key_with_pos(p: u64) -> u64 {
    FNV_OFFSET ^ p.wrapping_mul(FNV_PRIME_INV)
}

pub proof fn lemma_key_pos_onto(p: u64)
    ensures
        key_pos(key_with_pos(p)) == p,
{
    let q = p.wrapping_mul(FNV_PRIME_INV);
    assert(0xcbf29ce484222325u64 ^ (0xcbf29ce484222325u64 ^ q) == q) by (bit_vector);
    assert(q == ((p as nat * 0xce965057aff6957bu64 as nat) % 0x10000000000000000nat) as u64);
    assert((((p as int * 0xce965057aff6957b) % 0x10000000000000000) * 0x100000001b3)
        % 0x10000000000000000 == p as int) by (bit_vector);
}

fn hash_step_exec(h: u64, x: u64) -> (r: u64)
    ensures
        r == hash_step(h, x),
{
    (h ^ x).wrapping_mul(FNV_PRIME)
}

fn hash_chars_exec(s: &str, h0: u64) -> (r: u64)
    ensures
        r == hash_chars(s@, h0),
{
    let n: usize = s.unicode_len();
    let mut h: u64 = h0;
    let mut i: usize = 0;
    while i < n
        invariant
            n == s@.len(),
            0 <= i <= n,
            h == hash_chars(s@.subrange(0, i as int), h0),
        decreases n - i,
    {
        let c = s.get_char(i);
        proof {
            assert(s@.subrange(0, i as int + 1).drop_last() =~= s@.subrange(0, i as int));
            assert(s@.subrange(0, i as int + 1).last() == s@[i as int]);
        }
        h = hash_step_exec(h, c as u64);
        i += 1;
    }
    proof {
        assert(s@.subrange(0, n as int) =~= s@);
    }
    h
}

/// Computes the ring position of a node.
pub fn node_pos_exec(n: &NodeAddr) -> (r: u64)
    ensures
        r == node_pos(n@),
{
    let h = hash_chars_exec(self_address(n), FNV_OFFSET);
    hash_step_exec(h, n.port as u64)
}

fn self_address(n: &NodeAddr) -> (r: &str)
    ensures
        r@ == n@.address,
{
    n.address.as_str()
}

/// Computes the ring position of a bucket key.
pub fn key_pos_exec(key: u64) -> (r: u64)
    ensures
        r == key_pos(key),
{
    hash_step_exec(FNV_OFFSET, key)
}

// ---------------------------------------------------------------------------
// Ring entries and lookup
// ---------------------------------------------------------------------------

/// Mathematical view of one ring entry: a position and the node that owns it.
pub struct EntryV {
    pub pos: u64,
    pub node: NodeV,
}

struct RingSlot {
    pos: u64,
    node: NodeAddr,
}

impl View for RingSlot {
    type V = EntryV;

    closed spec fn view(&self) -> EntryV {
        EntryV { pos: self.pos, node: self.node@ }
    }
}

/// Entries are ordered by ring position (ties allowed).
pub open spec fn sorted(e: Seq<EntryV>) -> bool {
    forall|i: int, j: int| 0 <= i < j < e.len() ==> e[i].pos <= e[j].pos
}

/// Every entry sits at the position its node hashes to.
pub open spec fn positions_consistent(e: Seq<EntryV>) -> bool {
    forall|i: int| 0 <= i < e.len() ==> #[trigger] e[i].pos == node_pos(e[i].node)
}

pub open spec fn wf_entries(e: Seq<EntryV>) -> bool {
    sorted(e) && positions_consistent(e)
}

/// Is the node a ring member?
pub open spec fn is_member(e: Seq<EntryV>, n: NodeV) -> bool {
    exists|i: int| 0 <= i < e.len() && #[trigger] e[i].node == n
}

/// The first index at or after `i` whose position is at least `p`, or
/// `e.len()` if none.
pub open spec fn find_ge(e: Seq<EntryV>, p: u64, i: int) -> int
    decreases e.len() - i,
{
    if i < 0 || i >= e.len() {
        e.len() as int
    } else if e[i].pos >= p {
        i
    } else {
        find_ge(e, p, i + 1)
    }
}

/// The first index at or after `i` whose position is strictly above `p`,
/// or `e.len()` if none.
pub open spec fn find_gt(e: Seq<EntryV>, p: u64, i: int) -> int
    decreases e.len() - i,
{
    if i < 0 || i >= e.len() {
        e.len() as int
    } else if e[i].pos > p {
        i
    } else {
        find_gt(e, p, i + 1)
    }
}

/// Standard consistent-hash lookup: the node owning the smallest position
/// at or after `p`, wrapping around to the first entry; nothing on an
/// empty ring.
pub open spec fn spec_lookup(e: Seq<EntryV>, p: u64) -> Option<NodeV> {
    if e.len() == 0 {
        None
    } else if find_ge(e, p, 0) < e.len() {
        Some(e[find_ge(e, p, 0)].node)
    } else {
        Some(e[0].node)
    }
}

pub proof fn lemma_find_ge_bounds(e: Seq<EntryV>, p: u64, i: int)
    requires
        0 <= i <= e.len(),
    ensures
        i <= find_ge(e, p, i) <= e.len(),
        forall|k: int| i <= k < find_ge(e, p, i) ==> e[k].pos < p,
        find_ge(e, p, i) < e.len() ==> e[find_ge(e, p, i)].pos >= p,
    decreases e.len() - i,
{
    if i < e.len() && e[i].pos < p {
        lemma_find_ge_bounds(e, p, i + 1);
    }
}

pub proof fn lemma_find_gt_bounds(e: Seq<EntryV>, p: u64, i: int)
    requires
        0 <= i <= e.len(),
    ensures
        i <= find_gt(e, p, i) <= e.len(),
        forall|k: int| i <= k < find_gt(e, p, i) ==> e[k].pos <= p,
        find_gt(e, p, i) < e.len() ==> e[find_gt(e, p, i)].pos > p,
    decreases e.len() - i,
{
    if i < e.len() && e[i].pos <= p {
        lemma_find_gt_bounds(e, p, i + 1);
    }
}

/// `find_ge` is pinned down by its boundary facts.
pub proof fn lemma_find_ge_char(e: Seq<EntryV>, p: u64, i: int, r: int)
    requires
        0 <= i <= r <= e.len(),
        forall|k: int| i <= k < r ==> e[k].pos < p,
        r < e.len() ==> e[r].pos >= p,
    ensures
        find_ge(e, p, i) == r,
    decreases r - i,
{
    if i < r {
        lemma_find_ge_char(e, p, i + 1, r);
    }
}

// ---------------------------------------------------------------------------
// The ring structure
// ---------------------------------------------------------------------------

/// Ordered mapping from ring positions to replica nodes.
pub struct HashRing {
    entries: Vec<RingSlot>,
}

impl View for HashRing {
    type V = Seq<EntryV>;

    closed spec fn view(&self) -> Seq<EntryV> {
        self.entries@.map_values(|s: RingSlot| s@)
    }
}

/// The entries of `e` with the entry `x` inserted after all entries of
/// equal or smaller position: how `add` extends a ring.
pub open spec fn insert_entry(e: Seq<EntryV>, x: EntryV) -> Seq<EntryV> {
    e.subrange(0, find_gt(e, x.pos, 0)) + seq![x] + e.subrange(find_gt(e, x.pos, 0), e.len() as int)
}

impl HashRing {
    /// The ring's structural invariant.
    pub open spec fn well_formed(&self) -> bool {
        wf_entries(self@)
    }

    /// An empty ring: no replicas known yet.
    pub fn new() -> (r: HashRing)
        ensures
            r@ == Seq::<EntryV>::empty(),
            r.well_formed(),
    {
        let r = HashRing { entries: Vec::new() };
        proof {
            assert(r@ =~= Seq::<EntryV>::empty());
        }
        r
    }

    /// How many replicas the ring holds.
    pub fn len(&self) -> (r: usize)
        ensures
            r == self@.len(),
    {
        self.entries.len()
    }

    /// Is this node already a ring member?
    pub fn contains_node(&self, node: &NodeAddr) -> (r: bool)
        ensures
            r == is_member(self@, node@),
    {
        let n = self.entries.len();
        let mut i: usize = 0;
        while i < n
            invariant
                n == self.entries.len(),
                n == self@.len(),
                0 <= i <= n,
                forall|k: int| 0 <= k < i ==> self@[k].node != node@,
            decreases n - i,
        {
            let same_addr = string_eq(&self.entries[i].node.address, &node.address);
            if same_addr && self.entries[i].node.port == node.port {
                proof {
                    assert(self@[i as int].node == node@);
                }
                return true;
            }
            proof {
                assert(self@[i as int].node != node@);
            }
            i += 1;
        }
        false
    }

    /// Inserts a node at its hashed ring position; a node that is already
    /// a member is left alone, so insertion is idempotent.
    pub fn add(&mut self, node: NodeAddr)
        requires
            old(self).well_formed(),
        ensures
            final(self).well_formed(),
            is_member(old(self)@, node@) ==> final(self)@ == old(self)@,
            !is_member(old(self)@, node@) ==> final(self)@ == insert_entry(
                old(self)@,
                EntryV { pos: node_pos(node@), node: node@ },
            ),
            is_member(final(self)@, node@),
            forall|n: NodeV| is_member(old(self)@, n) ==> is_member(final(self)@, n),
            forall|n: NodeV|
                is_member(final(self)@, n) ==> is_member(old(self)@, n) || n == node@,
            final(self)@.len() >= old(self)@.len(),
    {
        if self.contains_node(&node) {
            return ;
        }
        let pos = node_pos_exec(&node);
        let n = self.entries.len();
        let mut i: usize = 0;
        while i < n && self.entries[i].pos <= pos
            invariant
                n == self.entries.len(),
                n == self@.len(),
                0 <= i <= n,
                forall|k: int| 0 <= k < i ==> self@[k].pos <= pos,
            decreases n - i,
        {
            proof {
                assert(self@[i as int].pos <= pos);
            }
            i += 1;
        }
        proof {
            if i < n {
                assert(self@[i as int] == self.entries@[i as int]@);
            }
            lemma_find_ge_char_gt(self@, pos, i as int);
        }
        let ghost olde = self@;
        let ghost x = EntryV { pos, node: node@ };
        self.entries.insert(i, RingSlot { pos, node });
        proof {
            assert(self@ =~= olde.subrange(0, i as int) + seq![x] + olde.subrange(
                i as int,
                olde.len() as int,
            ));
            assert(self@ == insert_entry(olde, x));
            lemma_insert_wf(olde, x, i as int);
            assert(self@[i as int].node == x.node);
            assert(is_member(self@, node@));
            assert forall|nv: NodeV| is_member(olde, nv) implies is_member(self@, nv) by {
                let k = choose|k: int| 0 <= k < olde.len() && #[trigger] olde[k].node == nv;
                if k < i {
                    assert(self@[k].node == nv);
                } else {
                    assert(self@[k + 1].node == nv);
                }
            }
            assert forall|nv: NodeV|
                is_member(self@, nv) implies is_member(olde, nv) || nv == node@ by {
                let k = choose|k: int| 0 <= k < self@.len() && #[trigger] self@[k].node == nv;
                if k < i {
                    assert(olde[k].node == nv);
                    assert(is_member(olde, nv));
                } else if k > i {
                    assert(olde[k - 1].node == nv);
                    assert(is_member(olde, nv));
                }
            }
        }
    }

    /// Returns the replica owning the given bucket key, or nothing if the
    /// ring is empty.
    pub fn get(&self, key: u64) -> (r: Option<NodeAddr>)
        ensures
            r is None <==> self@.len() == 0,
            r matches Some(n) ==> spec_lookup(self@, key_pos(key)) == Some(n@),
    {
        let kp = key_pos_exec(key);
        let n = self.entries.len();
        let mut i: usize = 0;
        while i < n && self.entries[i].pos < kp
            invariant
                n == self.entries.len(),
                n == self@.len(),
                0 <= i <= n,
                forall|k: int| 0 <= k < i ==> self@[k].pos < kp,
            decreases n - i,
        {
            proof {
                assert(self@[i as int].pos < kp);
            }
            i += 1;
        }
        proof {
            if i < n {
                assert(self@[i as int] == self.entries@[i as int]@);
            }
            lemma_find_ge_char(self@, kp, 0, i as int);
        }
        if i < n {
            let node = self.entries[i].node.clone();
            proof {
                assert(self@[i as int].node == node@);
            }
            Some(node)
        } else if n > 0 {
            let node = self.entries[0].node.clone();
            proof {
                assert(self@[0].node == node@);
            }
            Some(node)
        } else {
            None
        }
    }
}

/// Glue for `add`: the scan index is exactly `find_gt`.
proof fn lemma_find_ge_char_gt(e: Seq<EntryV>, p: u64, r: int)
    requires
        0 <= r <= e.len(),
        forall|k: int| 0 <= k < r ==> e[k].pos <= p,
        r < e.len() ==> e[r].pos > p,
    ensures
        find_gt(e, p, 0) == r,
{
    lemma_find_gt_char(e, p, 0, r);
}

proof fn lemma_find_gt_char(e: Seq<EntryV>, p: u64, i: int, r: int)
    requires
        0 <= i <= r <= e.len(),
        forall|k: int| i <= k < r ==> e[k].pos <= p,
        r < e.len() ==> e[r].pos > p,
    ensures
        find_gt(e, p, i) == r,
    decreases r - i,
{
    if i < r {
        lemma_find_gt_char(e, p, i + 1, r);
    }
}

/// Inserting an entry of consistent position at its sorted slot keeps the
/// ring well formed.
proof fn lemma_insert_wf(e: Seq<EntryV>, x: EntryV, i: int)
    requires
        wf_entries(e),
        x.pos == node_pos(x.node),
        i == find_gt(e, x.pos, 0),
    ensures
        wf_entries(e.subrange(0, i) + seq![x] + e.subrange(i, e.len() as int)),
{
    lemma_find_gt_bounds(e, x.pos, 0);
    let e2 = e.subrange(0, i) + seq![x] + e.subrange(i, e.len() as int);
    assert forall|a: int, b: int| 0 <= a < b < e2.len() implies e2[a].pos <= e2[b].pos by {
        if a < i {
            assert(e2[a] == e[a]);
        } else if a == i {
            assert(e2[a] == x);
        } else {
            assert(e2[a] == e[a - 1]);
        }
        if b < i {
            assert(e2[b] == e[b]);
        } else if b == i {
            assert(e2[b] == x);
        } else {
            assert(e2[b] == e[b - 1]);
        }
    }
    assert forall|a: int| 0 <= a < e2.len() implies #[trigger] e2[a].pos == node_pos(e2[a].node) by {
        if a < i {
            assert(e2[a] == e[a]);
        } else if a == i {
            assert(e2[a] == x);
        } else {
            assert(e2[a] == e[a - 1]);
        }
    }
}

/// Compares two strings character for character.
fn string_eq(a: &String, b: &String) -> (r: bool)
    ensures
        r == (a@ == b@),
{
    crate::routing::str_eq(a.as_str(), b.as_str())
}

// ---------------------------------------------------------------------------
// Laws of the ring
// ---------------------------------------------------------------------------

/// For a fixed ring membership, repeated lookups of the same bucket key
/// return the same owner: the lookup is a function of the entries and the
/// key alone.
pub proof fn lemma_lookup_deterministic(e1: Seq<EntryV>, e2: Seq<EntryV>, key: u64)
    requires
        e1 == e2,
    ensures
        spec_lookup(e1, key_pos(key)) == spec_lookup(e2, key_pos(key)),
{
}

/// A lookup against an empty ring returns no owner.
pub proof fn lemma_lookup_empty(e: Seq<EntryV>, key: u64)
    requires
        e.len() == 0,
    ensures
        spec_lookup(e, key_pos(key)) is None,
{
}

/// A lookup against a non-empty ring always returns an owner.
pub proof fn lemma_lookup_total(e: Seq<EntryV>, p: u64)
    requires
        e.len() > 0,
    ensures
        spec_lookup(e, p) is Some,
{
}

/// Consistent-hashing stability, first half: adding a node to a non-empty
/// ring changes the owner of a position only toward the added node; every
/// position that keeps out of the new node's range keeps its old owner.
pub proof fn lemma_add_redirects_only_to_new(e: Seq<EntryV>, x: EntryV, p: u64)
    requires
        sorted(e),
        e.len() > 0,
    ensures
        spec_lookup(insert_entry(e, x), p) == spec_lookup(e, p) || spec_lookup(insert_entry(e, x), p)
            == Some(x.node),
{
    let i = find_gt(e, x.pos, 0);
    let e2 = insert_entry(e, x);
    lemma_find_gt_bounds(e, x.pos, 0);
    let j = find_ge(e, p, 0);
    lemma_find_ge_bounds(e, p, 0);
    if j < i {
        assert(e2[j] == e[j]);
        assert forall|k: int| 0 <= k < j implies e2[k].pos < p by {
            assert(e2[k] == e[k]);
        }
        lemma_find_ge_char(e2, p, 0, j);
    } else {
        if x.pos >= p {
            assert forall|k: int| 0 <= k < i implies e2[k].pos < p by {
                assert(e2[k] == e[k]);
            }
            assert(e2[i] == x);
            lemma_find_ge_char(e2, p, 0, i);
            assert(spec_lookup(e2, p) == Some(x.node));
        } else {
            if j < e.len() {
                assert forall|k: int| 0 <= k < j + 1 implies e2[k].pos < p by {
                    if k < i {
                        assert(e2[k] == e[k]);
                    } else if k == i {
                        assert(e2[k] == x);
                    } else {
                        assert(e2[k] == e[k - 1]);
                    }
                }
                assert(e2[j + 1] == e[j]);
                lemma_find_ge_char(e2, p, 0, j + 1);
                assert(spec_lookup(e2, p) == Some(e[j].node));
            } else {
                assert forall|k: int| 0 <= k < e2.len() implies e2[k].pos < p by {
                    if k < i {
                        assert(e2[k] == e[k]);
                    } else if k == i {
                        assert(e2[k] == x);
                    } else {
                        assert(e2[k] == e[k - 1]);
                    }
                }
                lemma_find_ge_char(e2, p, 0, e2.len() as int);
                if i == 0 {
                    assert(e2[0] == x);
                    assert(spec_lookup(e2, p) == Some(x.node));
                } else {
                    assert(e2[0] == e[0]);
                    assert(spec_lookup(e2, p) == Some(e[0].node));
                    assert(spec_lookup(e, p) == Some(e[0].node));
                }
            }
        }
    }
}

/// Consistent-hashing stability at the bucket-key level: adding a node
/// to a non-empty ring never remaps every key; some bucket key keeps
/// exactly the owner it had.
pub proof fn lemma_add_keeps_a_key(e: Seq<EntryV>, x: EntryV)
    requires
        sorted(e),
        e.len() > 0,
    ensures
        exists|k: u64|
            spec_lookup(insert_entry(e, x), key_pos(k)) == spec_lookup(e, key_pos(k))
                && spec_lookup(e, key_pos(k)) is Some,
{
    let k = key_with_pos(e[0].pos);
    lemma_key_pos_onto(e[0].pos);
    lemma_add_keeps_an_owner(e, x);
    assert(spec_lookup(insert_entry(e, x), key_pos(k)) == spec_lookup(e, key_pos(k))
        && spec_lookup(e, key_pos(k)) is Some);
}

/// Consistent-hashing stability, second half: adding a node never remaps
/// every position; the position of the ring's first entry keeps its owner.
pub proof fn lemma_add_keeps_an_owner(e: Seq<EntryV>, x: EntryV)
    requires
        sorted(e),
        e.len() > 0,
    ensures
        spec_lookup(insert_entry(e, x), e[0].pos) == spec_lookup(e, e[0].pos),
        spec_lookup(e, e[0].pos) == Some(e[0].node),
{
    let p = e[0].pos;
    let i = find_gt(e, x.pos, 0);
    let e2 = insert_entry(e, x);
    lemma_find_gt_bounds(e, x.pos, 0);
    lemma_find_ge_char(e, p, 0, 0);
    if i == 0 {
        assert(e2[0] == x);
        assert(e2[1] == e[0]);
        assert(x.pos < p);
        lemma_find_ge_char(e2, p, 0, 1);
        assert(spec_lookup(e2, p) == Some(e[0].node));
    } else {
        assert(e2[0] == e[0]);
        lemma_find_ge_char(e2, p, 0, 0);
        assert(spec_lookup(e2, p) == Some(e[0].node));
    }
}

} // verus!

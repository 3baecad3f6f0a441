//! Endpoint identifiers and ordered sets of them.

use vstd::prelude::*;

verus! {

/// Whether 32 bytes are the compressed form of an Ed25519 public key.
pub uninterp spec fn is_public_key(bytes: Seq<u8>) -> bool;

/// Checks a key with `iroh::PublicKey::from_bytes`.
///
/// Trusted: whether the call succeeds depends on the bytes alone. It succeeds
/// where they decompress to a point of the curve, which `is_public_key` names.
#[verifier::external_body]
fn check_public_key(bytes: &[u8; 32]) -> (valid: bool)
    ensures
        valid == is_public_key(bytes@),
{
    iroh::PublicKey::from_bytes(bytes).is_ok()
}

/// The identifier of an endpoint in the network: its public key.
///
/// The bytes of every value are those of a valid key.
#[derive(Clone, Copy, Debug, PartialEq, Eq)]
pub struct EndpointId {
    bytes: [u8; 32],
}

impl View for EndpointId {
    type V = Seq<u8>;

    closed spec fn view(&self) -> Seq<u8> {
        self.bytes@
    }
}

impl EndpointId {
    #[verifier::type_invariant]
    closed spec fn is_valid(self) -> bool {
        is_public_key(self.bytes@)
    }

    /// The identifier with these bytes, where they are a valid public key.
    pub fn from_bytes(bytes: [u8; 32]) -> (id: Option<EndpointId>)
        ensures
            id is Some <==> is_public_key(bytes@),
            id matches Some(id) ==> id@ == bytes@,
    {
        if check_public_key(&bytes) {
            Some(EndpointId { bytes })
        } else {
            None
        }
    }

    /// The bytes of the key.
    pub fn to_bytes(&self) -> (bytes: [u8; 32])
        ensures
            bytes@ == self@,
            is_public_key(bytes@),
    {
        proof {
            use_type_invariant(self);
        }
        self.bytes
    }

    /// Whether two identifiers are the same, byte for byte.
    pub fn same(&self, other: &EndpointId) -> (same: bool)
        ensures
            same == (self@ == other@),
            same == (self == other),
    {
        let mut i: usize = 0;
        while i < 32
            invariant
                i <= 32,
                forall|j: int| 0 <= j < i ==> self.bytes@[j] == other.bytes@[j],
            decreases 32 - i,
        {
            if self.bytes[i] != other.bytes[i] {
                return false;
            }
            i = i + 1;
        }
        assert(self@ =~= other@);
        assert(self.bytes =~= other.bytes);
        true
    }
}

/// Whether the key `a` comes before the key `b` in the order of keys: at the
/// first byte in which they differ, `a` has the smaller one.
pub open spec fn precedes(a: Seq<u8>, b: Seq<u8>) -> bool {
    exists|k: int| differs_first_at(a, b, k) && a[k] < b[k]
}

/// Whether `k` is the first position at which `a` and `b` differ.
pub open spec fn differs_first_at(a: Seq<u8>, b: Seq<u8>, k: int) -> bool {
    &&& 0 <= k < a.len()
    &&& k < b.len()
    &&& a[k] != b[k]
    &&& forall|j: int| 0 <= j < k ==> a[j] == b[j]
}

/// Whether every key comes before those behind it.
pub open spec fn ascending(keys: Seq<Seq<u8>>) -> bool {
    forall|i: int, j: int| 0 <= i < j < keys.len() ==> precedes(keys[i], keys[j])
}

/// No two keys come before each other, and no key before itself.
proof fn lemma_precedes_asymmetric(a: Seq<u8>, b: Seq<u8>)
    requires
        precedes(a, b),
    ensures
        !precedes(b, a),
        a != b,
{
    let k = choose|k: int| differs_first_at(a, b, k) && a[k] < b[k];
    assert forall|m: int| differs_first_at(b, a, m) implies !(b[m] < a[m]) by {
        if m < k {
            assert(a[m] == b[m]);
        } else if k < m {
            assert(b[k] == a[k]);
        }
    }
}

/// The order of keys is transitive.
proof fn lemma_precedes_transitive(a: Seq<u8>, b: Seq<u8>, c: Seq<u8>)
    requires
        precedes(a, b),
        precedes(b, c),
    ensures
        precedes(a, c),
{
    let k = choose|k: int| differs_first_at(a, b, k) && a[k] < b[k];
    let m = choose|m: int| differs_first_at(b, c, m) && b[m] < c[m];
    let n = if k < m { k } else { m };
    assert(differs_first_at(a, c, n) && a[n] < c[n]);
}

/// A set of keys has one order: two ascending sequences of the same keys are
/// the same sequence.
pub proof fn lemma_ascending_unique(a: Seq<Seq<u8>>, b: Seq<Seq<u8>>)
    requires
        ascending(a),
        ascending(b),
        a.to_set() == b.to_set(),
    ensures
        a == b,
    decreases a.len(),
{
    if a.len() == 0 {
        if b.len() > 0 {
            assert(b.to_set().contains(b[0]));
            assert(a.contains(b[0]));
        }
        assert(a =~= b);
    } else {
        assert(a.to_set().contains(a.last()));
        assert(b.contains(a.last()));
        let j = choose|j: int| 0 <= j < b.len() && b[j] == a.last();
        assert(b.to_set().contains(b.last()));
        assert(a.contains(b.last()));
        let i = choose|i: int| 0 <= i < a.len() && a[i] == b.last();
        if j < b.len() - 1 {
            assert(precedes(b[j], b[b.len() - 1]));
            lemma_precedes_asymmetric(a.last(), b.last());
            if i < a.len() - 1 {
                assert(precedes(a[i], a[a.len() - 1]));
            }
        }
        assert(a.last() == b.last());
        let last = a.last();
        assert forall|key: Seq<u8>| a.drop_last().contains(key) == b.drop_last().contains(key) by {
            if a.drop_last().contains(key) {
                let x = choose|x: int| 0 <= x < a.len() - 1 && a[x] == key;
                assert(precedes(a[x], a[a.len() - 1]));
                lemma_precedes_asymmetric(key, last);
                assert(a.to_set().contains(key));
                assert(b.contains(key));
                let y = choose|y: int| 0 <= y < b.len() && b[y] == key;
                assert(b.drop_last()[y] == key);
            }
            if b.drop_last().contains(key) {
                let x = choose|x: int| 0 <= x < b.len() - 1 && b[x] == key;
                assert(precedes(b[x], b[b.len() - 1]));
                lemma_precedes_asymmetric(key, last);
                assert(b.to_set().contains(key));
                assert(a.contains(key));
                let y = choose|y: int| 0 <= y < a.len() && a[y] == key;
                assert(a.drop_last()[y] == key);
            }
        }
        assert(a.drop_last().to_set() =~= b.drop_last().to_set());
        lemma_ascending_unique(a.drop_last(), b.drop_last());
        assert(a =~= a.drop_last().push(last));
        assert(b =~= b.drop_last().push(last));
    }
}

impl EndpointId {
    /// Whether this identifier comes before `other` in the order of keys.
    pub fn comes_before(&self, other: &EndpointId) -> (before: bool)
        ensures
            before == precedes(self@, other@),
    {
        let mut i: usize = 0;
        while i < 32
            invariant
                i <= 32,
                forall|j: int| 0 <= j < i ==> self.bytes@[j] == other.bytes@[j],
            decreases 32 - i,
        {
            if self.bytes[i] != other.bytes[i] {
                assert(differs_first_at(self@, other@, i as int));
                proof {
                    if other.bytes@[i as int] < self.bytes@[i as int] {
                        assert(differs_first_at(other@, self@, i as int));
                        assert(precedes(other@, self@));
                        lemma_precedes_asymmetric(other@, self@);
                    }
                }
                return self.bytes[i] < other.bytes[i];
            }
            i = i + 1;
        }
        false
    }
}

/// A set of endpoints that lists its members in the order of their keys.
#[derive(Debug)]
pub struct PeerSet {
    ids: Vec<EndpointId>,
}

impl View for PeerSet {
    type V = Set<Seq<u8>>;

    closed spec fn view(&self) -> Set<Seq<u8>> {
        self.keys().to_set()
    }
}

impl PeerSet {
    /// The keys of the members, in ascending order.
    pub closed spec fn keys(self) -> Seq<Seq<u8>> {
        self.ids@.map_values(|id: EndpointId| id@)
    }

    #[verifier::type_invariant]
    closed spec fn is_ordered(self) -> bool {
        ascending(self.keys())
    }

    /// The set without members.
    pub fn new() -> (set: PeerSet)
        ensures
            set@ == Set::<Seq<u8>>::empty(),
            set.keys() == Seq::<Seq<u8>>::empty(),
    {
        let set = PeerSet { ids: Vec::new() };
        assert(set.keys() =~= Seq::<Seq<u8>>::empty());
        assert(set@ =~= Set::<Seq<u8>>::empty());
        set
    }

    /// The set with the one member `id`.
    pub fn singleton(id: EndpointId) -> (set: PeerSet)
        ensures
            set@ == Set::<Seq<u8>>::empty().insert(id@),
    {
        let mut set = PeerSet::new();
        set.insert(id);
        set
    }

    /// Where `id` stands or belongs: every member in front of that position
    /// comes before `id`, and the second value says whether `id` stands there.
    fn locate(&self, id: &EndpointId) -> (found: (usize, bool))
        ensures
            found.0 <= self.ids@.len(),
            found.1 == self@.contains(id@),
            forall|i: int| 0 <= i < found.0 ==> precedes(#[trigger] self.keys()[i], id@),
            found.1 ==> found.0 < self.ids@.len() && self.keys()[found.0 as int] == id@,
            !found.1 ==> forall|i: int|
                found.0 <= i < self.ids@.len() ==> precedes(id@, #[trigger] self.keys()[i]),
    {
        proof {
            use_type_invariant(self);
        }
        let mut i: usize = 0;
        while i < self.ids.len() && self.ids[i].comes_before(id)
            invariant
                i <= self.ids@.len(),
                forall|j: int| 0 <= j < i ==> precedes(#[trigger] self.keys()[j], id@),
            decreases self.ids@.len() - i,
        {
            i = i + 1;
        }
        let found = i < self.ids.len() && self.ids[i].same(id);
        proof {
            if found {
                assert(self.keys()[i as int] == id@);
            } else {
                assert forall|j: int| i <= j < self.ids@.len() implies precedes(
                    id@,
                    #[trigger] self.keys()[j],
                ) by {
                    lemma_keys_comparable(self.ids@[i as int], *id);
                    if i < j {
                        assert(precedes(self.keys()[i as int], self.keys()[j]));
                        lemma_precedes_transitive(id@, self.keys()[i as int], self.keys()[j]);
                    }
                }
                if self@.contains(id@) {
                    let j = choose|j: int| 0 <= j < self.keys().len() && self.keys()[j] == id@;
                    lemma_precedes_asymmetric(id@, id@);
                }
            }
        }
        (i, found)
    }

    /// Whether `id` is a member.
    pub fn contains(&self, id: &EndpointId) -> (member: bool)
        ensures
            member == self@.contains(id@),
    {
        let (_, found) = self.locate(id);
        found
    }

    /// Adds `id`, and says whether it was not a member before.
    pub fn insert(&mut self, id: EndpointId) -> (added: bool)
        ensures
            final(self)@ == old(self)@.insert(id@),
            added == !old(self)@.contains(id@),
    {
        let (at, found) = self.locate(&id);
        if found {
            assert(self@ =~= self@.insert(id@));
            return false;
        }
        proof {
            use_type_invariant(&*self);
        }
        let ghost before = self.keys();
        let mut ids: Vec<EndpointId> = Vec::new();
        std::mem::swap(&mut ids, &mut self.ids);
        ids.insert(at, id);
        let ghost after = ids@.map_values(|id: EndpointId| id@);
        assert(after =~= before.insert(at as int, id@));
        assert(ascending(after));
        self.ids = ids;
        proof {
            lemma_insert_to_set(before, at as int, id@);
        }
        true
    }

    /// Removes `id`, and says whether it was a member before.
    pub fn remove(&mut self, id: &EndpointId) -> (removed: bool)
        ensures
            final(self)@ == old(self)@.remove(id@),
            removed == old(self)@.contains(id@),
    {
        let (at, found) = self.locate(id);
        if !found {
            assert(self@ =~= self@.remove(id@));
            return false;
        }
        proof {
            use_type_invariant(&*self);
        }
        let ghost before = self.keys();
        let mut ids: Vec<EndpointId> = Vec::new();
        std::mem::swap(&mut ids, &mut self.ids);
        let _ = ids.remove(at);
        let ghost after = ids@.map_values(|id: EndpointId| id@);
        assert(after =~= before.remove(at as int));
        assert(ascending(after));
        self.ids = ids;
        proof {
            lemma_remove_to_set(before, at as int);
        }
        true
    }

    /// Adds every member of `other`.
    pub fn extend(&mut self, other: &PeerSet)
        ensures
            final(self)@ == old(self)@.union(other@),
    {
        let mut i: usize = 0;
        let ghost start = self@;
        assert(start.union(other.keys().take(0).to_set()) =~= start);
        while i < other.ids.len()
            invariant
                i <= other.ids@.len(),
                self@ == start.union(other.keys().take(i as int).to_set()),
            decreases other.ids@.len() - i,
        {
            let _ = self.insert(other.ids[i]);
            proof {
                let shorter = other.keys().take(i as int);
                let longer = other.keys().take(i + 1);
                assert(longer =~= shorter.push(other.keys()[i as int]));
                lemma_push_to_set(shorter, other.keys()[i as int]);
                assert(start.union(longer.to_set()) =~= start.union(shorter.to_set()).insert(
                    other.keys()[i as int],
                ));
            }
            i = i + 1;
        }
        assert(other.keys().take(i as int) =~= other.keys());
    }

    /// Whether the set has no members.
    pub fn is_empty(&self) -> (empty: bool)
        ensures
            empty == (self@ == Set::<Seq<u8>>::empty()),
            empty == (self.keys().len() == 0),
    {
        let empty = self.ids.len() == 0;
        proof {
            if empty {
                assert(self@ =~= Set::<Seq<u8>>::empty());
            } else {
                assert(self.keys().contains(self.keys()[0]));
                assert(self@.contains(self.keys()[0]));
            }
        }
        empty
    }

    /// The number of members.
    pub fn len(&self) -> (n: usize)
        ensures
            n == self.keys().len(),
            self.keys().to_set() == self@,
            ascending(self.keys()),
    {
        proof {
            use_type_invariant(self);
        }
        self.ids.len()
    }

    /// The member at position `i` in the order of keys.
    pub fn get(&self, i: usize) -> (id: EndpointId)
        requires
            i < self.keys().len(),
        ensures
            id@ == self.keys()[i as int],
    {
        self.ids[i]
    }

    /// The members in ascending order of their keys.
    pub fn to_vec(&self) -> (ids: Vec<EndpointId>)
        ensures
            ids@.map_values(|id: EndpointId| id@) == self.keys(),
            ascending(self.keys()),
            self.keys().to_set() == self@,
            forall|i: int, j: int|
                0 <= i < j < ids@.len() ==> precedes(#[trigger] ids@[i]@, #[trigger] ids@[j]@),
    {
        proof {
            use_type_invariant(self);
        }
        let mut ids: Vec<EndpointId> = Vec::new();
        let mut i: usize = 0;
        while i < self.ids.len()
            invariant
                i <= self.ids@.len(),
                ids@ == self.ids@.take(i as int),
            decreases self.ids@.len() - i,
        {
            ids.push(self.ids[i]);
            i = i + 1;
            assert(ids@ =~= self.ids@.take(i as int));
        }
        assert(ids@ =~= self.ids@);
        proof {
            assert forall|i: int, j: int| 0 <= i < j < ids@.len() implies precedes(
                #[trigger] ids@[i]@,
                #[trigger] ids@[j]@,
            ) by {
                assert(precedes(self.keys()[i], self.keys()[j]));
            }
        }
        ids
    }
}

impl Clone for PeerSet {
    fn clone(&self) -> (copy: PeerSet)
        ensures
            copy@ == self@,
            copy.keys() == self.keys(),
    {
        PeerSet { ids: self.to_vec() }
    }
}

/// Of two different identifiers one comes before the other.
proof fn lemma_keys_comparable(a: EndpointId, b: EndpointId)
    requires
        a@ != b@,
    ensures
        precedes(a@, b@) || precedes(b@, a@),
{
    assert(exists|k: int| differs_first_at(a@, b@, k)) by {
        lemma_first_difference(a@, b@);
    }
    let k = choose|k: int| differs_first_at(a@, b@, k);
    assert(differs_first_at(b@, a@, k));
    if a@[k] < b@[k] {
        assert(precedes(a@, b@));
    } else {
        assert(precedes(b@, a@));
    }
}

/// Two different sequences of the same length differ somewhere first.
proof fn lemma_first_difference(a: Seq<u8>, b: Seq<u8>)
    requires
        a.len() == b.len(),
        a != b,
    ensures
        exists|k: int| differs_first_at(a, b, k),
    decreases a.len(),
{
    assert(a.len() > 0) by {
        if a.len() == 0 {
            assert(a =~= b);
        }
    }
    if a.drop_last() == b.drop_last() {
        let k = a.len() - 1;
        assert forall|j: int| 0 <= j < k implies a[j] == b[j] by {
            assert(a.drop_last()[j] == b.drop_last()[j]);
        }
        if a[k] == b[k] {
            assert(a =~= b);
        }
        assert(differs_first_at(a, b, k));
    } else {
        lemma_first_difference(a.drop_last(), b.drop_last());
        let k = choose|k: int| differs_first_at(a.drop_last(), b.drop_last(), k);
        assert forall|j: int| 0 <= j < k implies a[j] == b[j] by {
            assert(a.drop_last()[j] == b.drop_last()[j]);
        }
        assert(differs_first_at(a, b, k));
    }
}

/// The members of a sequence into which a key is put.
proof fn lemma_insert_to_set(keys: Seq<Seq<u8>>, at: int, key: Seq<u8>)
    requires
        0 <= at <= keys.len(),
    ensures
        keys.insert(at, key).to_set() == keys.to_set().insert(key),
{
    let longer = keys.insert(at, key);
    assert forall|k: Seq<u8>| longer.to_set().contains(k) == keys.to_set().insert(key).contains(
        k,
    ) by {
        if longer.contains(k) {
            let j = choose|j: int| 0 <= j < longer.len() && longer[j] == k;
            if j < at {
                assert(keys[j] == k);
            } else if j > at {
                assert(keys[j - 1] == k);
            }
        }
        if keys.contains(k) {
            let j = choose|j: int| 0 <= j < keys.len() && keys[j] == k;
            if j < at {
                assert(longer[j] == k);
            } else {
                assert(longer[j + 1] == k);
            }
        }
        assert(longer[at] == key);
    }
    assert(longer.to_set() =~= keys.to_set().insert(key));
}

/// The members of a sequence to which a key is appended.
pub proof fn lemma_push_to_set(keys: Seq<Seq<u8>>, key: Seq<u8>)
    ensures
        keys.push(key).to_set() == keys.to_set().insert(key),
{
    lemma_insert_to_set(keys, keys.len() as int, key);
    assert(keys.insert(keys.len() as int, key) =~= keys.push(key));
}

/// The members of an ascending sequence from which a key is taken.
proof fn lemma_remove_to_set(keys: Seq<Seq<u8>>, at: int)
    requires
        0 <= at < keys.len(),
        ascending(keys),
    ensures
        keys.remove(at).to_set() == keys.to_set().remove(keys[at]),
{
    let shorter = keys.remove(at);
    assert forall|k: Seq<u8>| shorter.to_set().contains(k) == keys.to_set().remove(
        keys[at],
    ).contains(k) by {
        if shorter.contains(k) {
            let j = choose|j: int| 0 <= j < shorter.len() && shorter[j] == k;
            if j < at {
                assert(keys[j] == k);
                assert(precedes(keys[j], keys[at]));
                lemma_precedes_asymmetric(k, keys[at]);
            } else {
                assert(keys[j + 1] == k);
                assert(precedes(keys[at], keys[j + 1]));
                lemma_precedes_asymmetric(keys[at], k);
            }
        }
        if keys.contains(k) && k != keys[at] {
            let j = choose|j: int| 0 <= j < keys.len() && keys[j] == k;
            if j < at {
                assert(shorter[j] == k);
            } else {
                assert(shorter[j - 1] == k);
            }
        }
    }
    assert(shorter.to_set() =~= keys.to_set().remove(keys[at]));
}

/// The order of keys goes by their first bytes, and where these are the same by
/// what stands behind them. A key does not come before itself.
pub proof fn lemma_precedes_by_bytes(a: Seq<u8>, b: Seq<u8>)
    requires
        a.len() > 0,
        b.len() > 0,
    ensures
        a[0] < b[0] ==> precedes(a, b),
        a[0] > b[0] ==> !precedes(a, b),
        a[0] == b[0] ==> precedes(a, b) == precedes(a.skip(1), b.skip(1)),
{
    if a[0] < b[0] {
        assert(differs_first_at(a, b, 0));
    } else if a[0] > b[0] {
        assert(differs_first_at(b, a, 0));
        assert(precedes(b, a));
        lemma_precedes_asymmetric(b, a);
    } else {
        if precedes(a, b) {
            let k = choose|k: int| differs_first_at(a, b, k) && a[k] < b[k];
            assert forall|j: int| 0 <= j < k - 1 implies a.skip(1)[j] == b.skip(1)[j] by {
                assert(a[j + 1] == b[j + 1]);
            }
            assert(differs_first_at(a.skip(1), b.skip(1), k - 1));
        }
        if precedes(a.skip(1), b.skip(1)) {
            let k = choose|k: int|
                differs_first_at(a.skip(1), b.skip(1), k) && a.skip(1)[k] < b.skip(1)[k];
            assert forall|j: int| 0 <= j < k + 1 implies a[j] == b[j] by {
                if j > 0 {
                    assert(a.skip(1)[j - 1] == b.skip(1)[j - 1]);
                }
            }
            assert(differs_first_at(a, b, k + 1));
        }
    }
}

/// Of two different keys of the same length exactly one comes before the other,
/// and the order is transitive.
pub proof fn lemma_precedes_is_an_order(a: Seq<u8>, b: Seq<u8>, c: Seq<u8>)
    requires
        a.len() == b.len(),
    ensures
        a == b ==> !precedes(a, b),
        a != b ==> (precedes(a, b) <==> !precedes(b, a)),
        precedes(a, b) && precedes(b, c) ==> precedes(a, c),
{
    if a != b {
        lemma_first_difference(a, b);
        let k = choose|k: int| differs_first_at(a, b, k);
        assert(differs_first_at(b, a, k));
        if a[k] < b[k] {
            assert(precedes(a, b));
            lemma_precedes_asymmetric(a, b);
        } else {
            assert(precedes(b, a));
            lemma_precedes_asymmetric(b, a);
        }
    } else if precedes(a, b) {
        lemma_precedes_asymmetric(a, b);
    }
    if precedes(a, b) && precedes(b, c) {
        lemma_precedes_transitive(a, b, c);
    }
}

} // verus!

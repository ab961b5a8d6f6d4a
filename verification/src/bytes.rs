//! Byte strings: comparison, copies, big-endian numbers, and a table keyed by bytes.

use vstd::prelude::*;

verus! {

/// Whether two byte strings are the same.
pub fn bytes_equal(a: &[u8], b: &[u8]) -> (r: bool)
    ensures
        r == (a@ == b@),
{
    if a.len() != b.len() {
        return false;
    }
    let mut i: usize = 0;
    while i < a.len()
        invariant
            i <= a.len(),
            a@.len() == b@.len(),
            forall|j: int| 0 <= j < i ==> a@[j] == b@[j],
        decreases a.len() - i,
    {
        if a[i] != b[i] {
            return false;
        }
        i = i + 1;
    }
    proof {
        assert(a@ =~= b@);
    }
    true
}

/// A copy of a byte string.
pub fn copy_bytes(a: &[u8]) -> (r: Vec<u8>)
    ensures
        r@ == a@,
{
    let mut r: Vec<u8> = Vec::new();
    let mut i: usize = 0;
    while i < a.len()
        invariant
            i <= a.len(),
            r@ == a@.take(i as int),
        decreases a.len() - i,
    {
        r.push(a[i]);
        proof {
            assert(a@.take(i + 1) =~= a@.take(i as int).push(a@[i as int]));
        }
        i = i + 1;
    }
    proof {
        assert(a@.take(a@.len() as int) =~= a@);
    }
    r
}

// ---------------------------------------------------------------------------
// Big-endian numbers
// ---------------------------------------------------------------------------

/// The last `n` bytes of `x`, the most significant first.
pub open spec fn be_bytes(x: nat, n: nat) -> Seq<u8>
    decreases n,
{
    if n == 0 {
        Seq::empty()
    } else {
        be_bytes(x / 256, (n - 1) as nat).push((x % 256) as u8)
    }
}

/// How many numbers `n` bytes can tell apart.
pub open spec fn byte_range(n: nat) -> nat
    decreases n,
{
    if n == 0 {
        1
    } else {
        256 * byte_range((n - 1) as nat)
    }
}

/// Appends the last `n` bytes of `x`, the most significant first.
pub fn push_be_bytes(out: &mut Vec<u8>, x: u64, n: u32)
    ensures
        final(out)@ == old(out)@ + be_bytes(x as nat, n as nat),
    decreases n,
{
    if n > 0 {
        push_be_bytes(out, x / 256, n - 1);
        out.push((x % 256) as u8);
        proof {
            assert(out@ =~= old(out)@ + be_bytes(x as nat, n as nat));
        }
    } else {
        proof {
            assert(out@ =~= old(out)@ + be_bytes(x as nat, n as nat));
        }
    }
}

/// The bytes of a number are as many as were asked for.
pub proof fn lemma_be_bytes_len(x: nat, n: nat)
    ensures
        be_bytes(x, n).len() == n,
    decreases n,
{
    if n > 0 {
        lemma_be_bytes_len(x / 256, (n - 1) as nat);
    }
}

/// Numbers that fit into `n` bytes and have the same bytes are the same.
pub proof fn lemma_be_bytes_injective(x: nat, y: nat, n: nat)
    requires
        x < byte_range(n),
        y < byte_range(n),
        be_bytes(x, n) == be_bytes(y, n),
    ensures
        x == y,
    decreases n,
{
    if n > 0 {
        let m = (n - 1) as nat;
        let a = be_bytes(x, n);
        let b = be_bytes(y, n);
        assert(a.last() == b.last());
        assert(a.drop_last() =~= be_bytes(x / 256, m));
        assert(b.drop_last() =~= be_bytes(y / 256, m));
        lemma_be_bytes_injective(x / 256, y / 256, m);
    }
}

// ---------------------------------------------------------------------------
// A table keyed by bytes
// ---------------------------------------------------------------------------

/// A table that maps byte strings to values.
pub struct ByteMap<V> {
    entries: Vec<(Vec<u8>, V)>,
}

impl<V: View> View for ByteMap<V> {
    type V = Map<Seq<u8>, V::V>;

    closed spec fn view(&self) -> Map<Seq<u8>, V::V> {
        Map::new(
            |key: Seq<u8>| exists|i: int| self.holds(i, key),
            |key: Seq<u8>| self.entries@[choose|i: int| self.holds(i, key)].1@,
        )
    }
}

impl<V> ByteMap<V> {
    /// Whether entry `i` holds `key`.
    pub closed spec fn holds(self, i: int, key: Seq<u8>) -> bool {
        0 <= i < self.entries@.len() && self.entries@[i].0@ == key
    }

    /// Whether no key occurs twice.
    pub closed spec fn wf(self) -> bool {
        forall|i: int, j: int, key: Seq<u8>|
            #![trigger self.holds(i, key), self.holds(j, key)]
            self.holds(i, key) && self.holds(j, key) ==> i == j
    }

    /// The position of `key`.
    fn find(&self, key: &[u8]) -> (r: Option<usize>)
        ensures
            match r {
                Some(i) => self.holds(i as int, key@),
                None => forall|i: int| !self.holds(i, key@),
            },
    {
        let mut i: usize = 0;
        while i < self.entries.len()
            invariant
                i <= self.entries@.len(),
                forall|j: int| 0 <= j < i ==> self.entries@[j].0@ != key@,
            decreases self.entries@.len() - i,
        {
            if bytes_equal(self.entries[i].0.as_slice(), key) {
                return Some(i);
            }
            i = i + 1;
        }
        None
    }
}

impl<V: View> ByteMap<V> {
    /// A table without entries.
    pub fn new() -> (r: ByteMap<V>)
        ensures
            r.wf(),
            r@ == Map::<Seq<u8>, V::V>::empty(),
    {
        let r = ByteMap { entries: Vec::new() };
        proof {
            assert(r@ =~= Map::<Seq<u8>, V::V>::empty());
        }
        r
    }

    /// The value under `key`.
    pub fn get(&self, key: &[u8]) -> (r: Option<&V>)
        requires
            self.wf(),
        ensures
            match r {
                Some(value) => self@.contains_key(key@) && self@[key@] == value@,
                None => !self@.contains_key(key@),
            },
    {
        match self.find(key) {
            Some(i) => {
                proof {
                    assert(self.holds(i as int, key@));
                    assert(self.holds(choose|j: int| self.holds(j, key@), key@));
                }
                Some(&self.entries[i].1)
            },
            None => None,
        }
    }

    /// Puts `value` under `key`, in place of an earlier value.
    pub fn insert(&mut self, key: Vec<u8>, value: V)
        requires
            old(self).wf(),
        ensures
            final(self).wf(),
            final(self)@ == old(self)@.insert(key@, value@),
    {
        let ghost k = key@;
        let ghost v = value@;
        match self.find(key.as_slice()) {
            Some(at) => {
                self.entries.set(at, (key, value));
                proof {
                    assert forall|i: int, any: Seq<u8>| self.holds(i, any) == old(self).holds(
                        i,
                        any,
                    ) by {
                        assert(old(self).holds(at as int, k));
                    }
                    self.lemma_updated(*old(self), at as int, k, v);
                }
            },
            None => {
                self.entries.push((key, value));
                proof {
                    let at = old(self).entries@.len() as int;
                    assert forall|i: int, any: Seq<u8>|
                        self.holds(i, any) == (old(self).holds(i, any) || (i == at && any == k)) by {}
                    self.lemma_updated(*old(self), at, k, v);
                }
            },
        }
    }

    /// A table that differs from another at the one entry that holds `k`.
    proof fn lemma_updated(self, before: ByteMap<V>, at: int, k: Seq<u8>, v: V::V)
        requires
            before.wf(),
            self.holds(at, k),
            self.entries@[at].1@ == v,
            forall|i: int| before.holds(i, k) ==> i == at,
            forall|i: int, any: Seq<u8>|
                #![trigger self.holds(i, any)]
                self.holds(i, any) == (before.holds(i, any) || (i == at && any == k)),
            forall|i: int| 0 <= i < before.entries@.len() && i != at ==> self.entries@[i] == before.entries@[i],
        ensures
            self.wf(),
            self@ == before@.insert(k, v),
    {
        assert forall|i: int, j: int, any: Seq<u8>|
            #![trigger self.holds(i, any), self.holds(j, any)]
            self.holds(i, any) && self.holds(j, any) implies i == j by {}
        assert forall|any: Seq<u8>| #[trigger] self@.contains_key(any) == before@.insert(
            k,
            v,
        ).contains_key(any) by {
            if before@.contains_key(any) {
                let i = choose|i: int| before.holds(i, any);
                assert(before.holds(i, any));
                assert(self.holds(i, any));
            }
            if self@.contains_key(any) {
                let i = choose|i: int| self.holds(i, any);
                assert(self.holds(i, any));
            }
        }
        assert forall|any: Seq<u8>| #[trigger] self@.contains_key(any) implies self@[any]
            == before@.insert(k, v)[any] by {
            let i = choose|i: int| self.holds(i, any);
            assert(self.holds(i, any));
            if any != k {
                assert(before.holds(i, any));
                let j = choose|j: int| before.holds(j, any);
                assert(before.holds(j, any));
            }
        }
        assert(self@ =~= before@.insert(k, v));
    }
}

} // verus!

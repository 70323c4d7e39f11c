use vstd::prelude::*;

verus! {

/// A 32-byte ledger address: the identity of a participant, a registry, a
/// treasury pool or a program.  Derived capabilities (program derived
/// addresses) are values of this type as well.
#[derive(Clone, Copy, Debug, PartialEq, Eq, Hash)]
pub struct Addr(pub [u8; 32]);

impl View for Addr {
    type V = Seq<u8>;

    open spec fn view(&self) -> Seq<u8> {
        self.0@
    }
}

/// Byte-wise equality of two addresses.
pub fn addr_eq(a: &Addr, b: &Addr) -> (r: bool)
    ensures
        r <==> a@ == b@,
{
    let mut i: usize = 0;
    while i < 32
        invariant
            i <= 32,
            forall|j: int| 0 <= j < i ==> a@[j] == b@[j],
        decreases 32 - i,
    {
        if a.0[i] != b.0[i] {
            return false;
        }
        i += 1;
    }
    assert(a@ =~= b@);
    true
}

/// Lexicographic strict order on addresses: there is a first index where the
/// two byte strings differ, and the left one is smaller there.
pub open spec fn lex_lt(a: Seq<u8>, b: Seq<u8>) -> bool {
    exists|i: int|
        0 <= i < 32 && #[trigger] a[i] < b[i] && (forall|j: int| 0 <= j < i ==> a[j] == b[j])
}

/// `lex_lt` is transitive.
pub proof fn lemma_lex_lt_trans(a: Seq<u8>, b: Seq<u8>, c: Seq<u8>)
    requires
        lex_lt(a, b),
        lex_lt(b, c),
    ensures
        lex_lt(a, c),
{
    let i1 = choose|i: int|
        0 <= i < 32 && #[trigger] a[i] < b[i] && (forall|j: int| 0 <= j < i ==> a[j] == b[j]);
    let i2 = choose|i: int|
        0 <= i < 32 && #[trigger] b[i] < c[i] && (forall|j: int| 0 <= j < i ==> b[j] == c[j]);
    if i1 < i2 {
        assert(a[i1] < c[i1] && (forall|j: int| 0 <= j < i1 ==> a[j] == c[j]));
    } else if i1 == i2 {
        assert(a[i1] < c[i1] && (forall|j: int| 0 <= j < i1 ==> a[j] == c[j]));
    } else {
        assert(a[i2] < c[i2] && (forall|j: int| 0 <= j < i2 ==> a[j] == c[j]));
    }
}

/// Two distinct 32-byte strings are ordered one way or the other.
pub proof fn lemma_lex_trichotomy(a: Seq<u8>, b: Seq<u8>)
    requires
        a.len() == 32,
        b.len() == 32,
        a != b,
    ensures
        lex_lt(a, b) || lex_lt(b, a),
{
    lemma_lex_first_diff(a, b, 0);
}

proof fn lemma_lex_first_diff(a: Seq<u8>, b: Seq<u8>, i: int)
    requires
        a.len() == 32,
        b.len() == 32,
        a != b,
        0 <= i <= 32,
        forall|j: int| 0 <= j < i ==> a[j] == b[j],
    ensures
        lex_lt(a, b) || lex_lt(b, a),
    decreases 32 - i,
{
    if i == 32 {
        assert(a =~= b);
    } else if a[i] < b[i] {
        assert(lex_lt(a, b));
    } else if b[i] < a[i] {
        assert(lex_lt(b, a));
    } else {
        lemma_lex_first_diff(a, b, i + 1);
    }
}

/// Compares two addresses lexicographically; returns whether `a` is strictly
/// below `b`.
pub fn addr_lt(a: &Addr, b: &Addr) -> (r: bool)
    ensures
        r <==> lex_lt(a@, b@),
{
    let mut i: usize = 0;
    while i < 32
        invariant
            i <= 32,
            forall|j: int| 0 <= j < i ==> a@[j] == b@[j],
        decreases 32 - i,
    {
        if a.0[i] < b.0[i] {
            assert(lex_lt(a@, b@));
            return true;
        }
        if a.0[i] > b.0[i] {
            assert(forall|k: int|
                0 <= k < 32 && (forall|j: int| 0 <= j < k ==> a@[j] == b@[j]) ==> !(a@[k]
                    < b@[k]));
            return false;
        }
        i += 1;
    }
    assert(forall|k: int| 0 <= k < 32 ==> a@[k] == b@[k]);
    false
}

/// The little-endian byte string of a 64-bit integer, as used in derivation
/// seeds.
pub open spec fn u64_le_bytes_spec(x: u64) -> Seq<u8> {
    seq![
        (x & 0xff) as u8,
        ((x >> 8) & 0xff) as u8,
        ((x >> 16) & 0xff) as u8,
        ((x >> 24) & 0xff) as u8,
        ((x >> 32) & 0xff) as u8,
        ((x >> 40) & 0xff) as u8,
        ((x >> 48) & 0xff) as u8,
        ((x >> 56) & 0xff) as u8,
    ]
}

/// Builds the little-endian byte string of a 64-bit integer.
pub fn u64_le_bytes(x: u64) -> (r: Vec<u8>)
    ensures
        r@ == u64_le_bytes_spec(x),
{
    let mut r: Vec<u8> = Vec::new();
    r.push((x & 0xff) as u8);
    r.push(((x >> 8) & 0xff) as u8);
    r.push(((x >> 16) & 0xff) as u8);
    r.push(((x >> 24) & 0xff) as u8);
    r.push(((x >> 32) & 0xff) as u8);
    r.push(((x >> 40) & 0xff) as u8);
    r.push(((x >> 48) & 0xff) as u8);
    r.push(((x >> 56) & 0xff) as u8);
    assert(r@ =~= u64_le_bytes_spec(x));
    r
}

/// The bytes of an address as a fresh vector, for use as a derivation
/// seed.
pub fn addr_to_vec(a: &Addr) -> (r: Vec<u8>)
    ensures
        r@ == a@,
{
    vstd::slice::slice_to_vec(a.0.as_slice())
}

/// A copy of a byte vector, for use as a derivation seed.
pub fn bytes_to_vec(b: &Vec<u8>) -> (r: Vec<u8>)
    ensures
        r@ == b@,
{
    vstd::slice::slice_to_vec(b.as_slice())
}

/// Byte-wise equality of two byte vectors, used to compare treasury
/// selectors and derivation seeds.
pub fn bytes_eq(a: &Vec<u8>, b: &Vec<u8>) -> (r: bool)
    ensures
        r <==> a@ == b@,
{
    if a.len() != b.len() {
        return false;
    }
    let n = a.len();
    let mut i: usize = 0;
    while i < n
        invariant
            i <= n,
            n == a@.len(),
            n == b@.len(),
            forall|j: int| 0 <= j < i ==> a@[j] == b@[j],
        decreases n - i,
    {
        if a[i] != b[i] {
            return false;
        }
        i += 1;
    }
    assert(a@ =~= b@);
    true
}

} // verus!

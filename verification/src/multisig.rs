use vstd::prelude::*;

use crate::addr::{Addr, addr_eq, addr_lt, lex_lt, lemma_lex_lt_trans, lemma_lex_trichotomy};
use crate::errors::DaoError;

verus! {

/// A roster is strictly sorted when every earlier key is lexicographically
/// below every later one; this makes the roster canonical and free of
/// duplicates.
pub open spec fn strictly_sorted(s: Seq<Addr>) -> bool {
    forall|i: int, j: int| 0 <= i < j < s.len() ==> lex_lt(#[trigger] s[i]@, #[trigger] s[j]@)
}

/// Whether a roster holds a key with the given bytes.
pub open spec fn contains_addr(s: Seq<Addr>, k: Seq<u8>) -> bool {
    exists|i: int| 0 <= i < s.len() && #[trigger] s[i]@ == k
}

/// The number of distinct keys in a list.
pub open spec fn distinct_count(keys: Seq<Addr>) -> nat {
    keys.map_values(|a: Addr| a@).to_set().len()
}

/// A strictly sorted roster holds no key twice.
pub proof fn lemma_sorted_unique(s: Seq<Addr>)
    requires
        strictly_sorted(s),
    ensures
        forall|i: int, j: int| 0 <= i < j < s.len() ==> #[trigger] s[i]@ != #[trigger] s[j]@,
{
    assert forall|i: int, j: int| 0 <= i < j < s.len() implies #[trigger] s[i]@ != #[trigger] s[j]@ by {
        assert(lex_lt(s[i]@, s[j]@));
    }
}

/// The position of the first key not below `x`, scanning a sorted roster.
fn lower_bound(v: &Vec<Addr>, x: &Addr) -> (i: usize)
    ensures
        i <= v@.len(),
        forall|j: int| 0 <= j < i ==> lex_lt(#[trigger] v@[j]@, x@),
        i < v@.len() ==> !lex_lt(v@[i as int]@, x@),
{
    let n = v.len();
    let mut i: usize = 0;
    while i < n
        invariant
            i <= n,
            n == v@.len(),
            forall|j: int| 0 <= j < i ==> lex_lt(#[trigger] v@[j]@, x@),
        decreases n - i,
    {
        if !addr_lt(&v[i], x) {
            return i;
        }
        i += 1;
    }
    i
}

/// Inserts a key into a sorted roster at its position, unless an equal key
/// is already there: the roster stays strictly sorted and afterwards holds
/// exactly the old keys and the new one.
pub fn sorted_insert(v: &mut Vec<Addr>, x: Addr)
    requires
        strictly_sorted(old(v)@),
    ensures
        strictly_sorted(final(v)@),
        forall|k: Seq<u8>|
            #[trigger] contains_addr(final(v)@, k) <==> (contains_addr(old(v)@, k) || k == x@),
        old(v)@.len() <= final(v)@.len() <= old(v)@.len() + 1,
{
    let i = lower_bound(v, &x);
    if i < v.len() {
        if addr_eq(&v[i], &x) {
            assert(contains_addr(v@, x@));
            assert(forall|k: Seq<u8>|
                #[trigger] contains_addr(v@, k) <==> (contains_addr(old(v)@, k) || k == x@));
            return ;
        }
    }
    proof {
        if i < v@.len() {
            lemma_lex_trichotomy(v@[i as int]@, x@);
            assert(lex_lt(x@, v@[i as int]@));
        }
    }
    let ghost pre = v@;
    v.insert(i, x);
    proof {
        let s = v@;
        assert forall|a: int, b: int| 0 <= a < b < s.len() implies lex_lt(
            #[trigger] s[a]@,
            #[trigger] s[b]@,
        ) by {
            if b < i {
                assert(s[a] == pre[a] && s[b] == pre[b]);
            } else if a < i && b == i {
                assert(s[a] == pre[a]);
            } else if a < i && b > i {
                assert(s[a] == pre[a] && s[b] == pre[b - 1]);
                if a == b - 1 {
                } else {
                    assert(lex_lt(pre[a]@, pre[b - 1]@));
                }
            } else if a == i {
                assert(s[b] == pre[b - 1]);
                assert(b - 1 >= i);
                if b - 1 == i {
                } else {
                    assert(lex_lt(pre[i as int]@, pre[b - 1]@));
                    lemma_lex_lt_trans(x@, pre[i as int]@, pre[b - 1]@);
                }
            } else {
                assert(s[a] == pre[a - 1] && s[b] == pre[b - 1]);
            }
        }
        assert forall|k: Seq<u8>|
            #[trigger] contains_addr(s, k) <==> (contains_addr(pre, k) || k == x@) by {
            if contains_addr(s, k) {
                let w = choose|w: int| 0 <= w < s.len() && #[trigger] s[w]@ == k;
                if w < i {
                    assert(pre[w]@ == k);
                    assert(contains_addr(pre, k));
                } else if w == i {
                } else {
                    assert(pre[w - 1]@ == k);
                    assert(contains_addr(pre, k));
                }
            }
            if contains_addr(pre, k) {
                let w = choose|w: int| 0 <= w < pre.len() && #[trigger] pre[w]@ == k;
                if w < i {
                    assert(s[w]@ == k);
                } else {
                    assert(s[w + 1]@ == k);
                }
                assert(contains_addr(s, k));
            }
            if k == x@ {
                assert(s[i as int]@ == k);
                assert(contains_addr(s, k));
            }
        }
    }
}

/// The n-of-m roster that gates administrative capability.  Created once at
/// genesis and immutable afterwards.
#[derive(Debug)]
pub struct MultiSig {
    /// The minimum signers required to execute.
    pub min_signers: u8,
    /// The authorized identities, strictly sorted and free of duplicates.
    pub keys: Vec<Addr>,
    /// Discriminator of the roster record's own address.
    pub multisig_bump: u8,
    /// Discriminator of the roster's treasury pool address.
    pub multisig_treasury_bump: u8,
}

impl MultiSig {
    /// The roster invariant: a positive signing threshold bounded by the
    /// roster size, at most 255 keys, and a canonical sorted,
    /// duplicate-free key list.
    pub open spec fn wf(&self) -> bool {
        &&& 0 < self.min_signers as int
        &&& self.min_signers as int <= self.keys@.len()
        &&& self.keys@.len() <= 255
        &&& strictly_sorted(self.keys@)
    }

    /// Builds the roster: the keys are sorted and de-duplicated, and the
    /// result holds exactly the distinct keys handed in.  Fails if and only
    /// if no key was handed in, more than 255 distinct keys were, or the
    /// minimum-signers threshold is zero or larger than the distinct key
    /// count.
    pub fn init(
        min_signers: u8,
        keys: Vec<Addr>,
        multisig_bump: u8,
        multisig_treasury_bump: u8,
    ) -> (r: Result<MultiSig, DaoError>)
        ensures
            r is Ok <==> keys@.len() > 0 && distinct_count(keys@) <= 255 && min_signers as nat
                <= distinct_count(keys@) && min_signers > 0,
            r matches Err(e) ==> (e == DaoError::InvalidKeysLen || e == DaoError::InvalidSigners),
            r matches Err(e) ==> (e == DaoError::InvalidKeysLen <==> (keys@.len() == 0
                || distinct_count(keys@) > 255)),
            r matches Ok(m) ==> {
                &&& m.wf()
                &&& m.min_signers == min_signers
                &&& m.multisig_bump == multisig_bump
                &&& m.multisig_treasury_bump == multisig_treasury_bump
                &&& m.keys@.len() == distinct_count(keys@)
                &&& strictly_sorted(m.keys@)
                &&& forall|k: Seq<u8>|
                    #[trigger] contains_addr(m.keys@, k) <==> contains_addr(keys@, k)
            },
    {
        let n = keys.len();
        let mut sorted: Vec<Addr> = Vec::new();
        let mut i: usize = 0;
        while i < n
            invariant
                i <= n,
                n == keys@.len(),
                strictly_sorted(sorted@),
                forall|k: Seq<u8>|
                    #[trigger] contains_addr(sorted@, k) <==> contains_addr(
                        keys@.take(i as int),
                        k,
                    ),
                sorted@.len() <= i,
            decreases n - i,
        {
            let ghost pre = sorted@;
            sorted_insert(&mut sorted, keys[i]);
            proof {
                assert(keys@.take(i + 1).drop_last() =~= keys@.take(i as int));
                assert forall|k: Seq<u8>|
                    #[trigger] contains_addr(sorted@, k) <==> contains_addr(
                        keys@.take(i + 1),
                        k,
                    ) by {
                    if contains_addr(sorted@, k) {
                        if contains_addr(pre, k) {
                            let w = choose|w: int|
                                0 <= w < keys@.take(i as int).len() && #[trigger] keys@.take(
                                    i as int,
                                )[w]@ == k;
                            assert(keys@.take(i + 1)[w]@ == k);
                        } else {
                            assert(keys@.take(i + 1)[i as int]@ == k);
                        }
                        assert(contains_addr(keys@.take(i + 1), k));
                    }
                    if contains_addr(keys@.take(i + 1), k) {
                        let w = choose|w: int|
                            0 <= w < keys@.take(i + 1).len() && #[trigger] keys@.take(i + 1)[w]@
                                == k;
                        if w < i {
                            assert(keys@.take(i as int)[w]@ == k);
                            assert(contains_addr(keys@.take(i as int), k));
                        } else {
                            assert(k == keys@[i as int]@);
                        }
                        assert(contains_addr(sorted@, k));
                    }
                }
            }
            i += 1;
        }
        proof {
            assert(keys@.take(n as int) =~= keys@);
            lemma_sorted_roster_count(sorted@, keys@);
        }
        if n == 0 {
            return Err(DaoError::InvalidKeysLen);
        }
        if sorted.len() > 255 {
            return Err(DaoError::InvalidKeysLen);
        }
        if (min_signers as usize) > sorted.len() {
            return Err(DaoError::InvalidSigners);
        }
        if min_signers == 0 {
            return Err(DaoError::InvalidSigners);
        }
        Ok(MultiSig { min_signers, keys: sorted, multisig_bump, multisig_treasury_bump })
    }
}

/// A sorted, duplicate-free roster that holds exactly the keys of a list
/// has as many entries as the list has distinct keys.
proof fn lemma_sorted_roster_count(sorted: Seq<Addr>, keys: Seq<Addr>)
    requires
        strictly_sorted(sorted),
        forall|k: Seq<u8>| #[trigger] contains_addr(sorted, k) <==> contains_addr(keys, k),
    ensures
        sorted.len() == distinct_count(keys),
{
    let sv = sorted.map_values(|a: Addr| a@);
    let kv = keys.map_values(|a: Addr| a@);
    lemma_sorted_unique(sorted);
    assert(sv.no_duplicates()) by {
        assert forall|i: int, j: int| 0 <= i < sv.len() && 0 <= j < sv.len() && i != j implies sv[i]
            != sv[j] by {
            assert(sv[i] == sorted[i]@ && sv[j] == sorted[j]@);
        }
    }
    assert(sv.to_set() =~= kv.to_set()) by {
        assert forall|k: Seq<u8>| #[trigger] sv.contains(k) implies kv.contains(k) by {
            let w = choose|w: int| 0 <= w < sv.len() && sv[w] == k;
            assert(sorted[w]@ == k);
            assert(contains_addr(sorted, k));
            let u = choose|u: int| 0 <= u < keys.len() && #[trigger] keys[u]@ == k;
            assert(kv[u] == k);
        }
        assert forall|k: Seq<u8>| #[trigger] kv.contains(k) implies sv.contains(k) by {
            let w = choose|w: int| 0 <= w < kv.len() && kv[w] == k;
            assert(keys[w]@ == k);
            assert(contains_addr(keys, k));
            assert(contains_addr(sorted, k));
            let u = choose|u: int| 0 <= u < sorted.len() && #[trigger] sorted[u]@ == k;
            assert(sv[u] == k);
        }
    }
    sv.unique_seq_to_set();
}

} // verus!

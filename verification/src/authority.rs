use vstd::prelude::*;

use crate::addr::{Addr, addr_eq};
use crate::domains::{Domain, domain_bytes, domain_bytes_spec};
use crate::errors::DaoError;

verus! {

use vstd::slice::slice_to_vec;

/// The program derived address and bump that the ledger's derivation
/// function assigns to a seed list under a program id, if any: a
/// deterministic function of the seed bytes and the program id alone.
pub uninterp spec fn pda_of(seeds: Seq<Seq<u8>>, program_id: Seq<u8>) -> Option<(Seq<u8>, u8)>;

/// Relies on `solana_program::pubkey::Pubkey::try_find_program_address`:
/// the derived address and bump depend on the seed bytes and the program id
/// alone, and in the statistically improbable event that no viable bump
/// exists (or a seed is over-long) there is no result.
#[verifier::external_body]
fn find_pda(seeds: &Vec<Vec<u8>>, program_id: &Addr) -> (r: Option<(Addr, u8)>)
    ensures
        ({
            let d = pda_of(seeds@.map_values(|s: Vec<u8>| s@), program_id@);
            match r {
                Some(p) => d == Some((p.0@, p.1)),
                None => d is None,
            }
        }),
{
    let mut refs: Vec<&[u8]> = Vec::with_capacity(seeds.len());
    for s in seeds.iter() {
        refs.push(s.as_slice());
    }
    let pid = solana_program::pubkey::Pubkey::new_from_array(program_id.0);
    solana_program::pubkey::Pubkey::try_find_program_address(refs.as_slice(), &pid).map(
        |p: (solana_program::pubkey::Pubkey, u8)| (Addr(p.0.to_bytes()), p.1),
    )
}

/// Derives the address and bump for a seed list under a program id; fails
/// with `InvalidSignerOrSeed` exactly when the derivation has no result.
pub fn derive_address(program_id: &Addr, seeds: &Vec<Vec<u8>>) -> (r: Result<(Addr, u8), DaoError>)
    ensures
        match pda_of(seeds@.map_values(|s: Vec<u8>| s@), program_id@) {
            Some(p) => r matches Ok(q) && q.0@ == p.0 && q.1 == p.1,
            None => r == Err::<(Addr, u8), DaoError>(DaoError::InvalidSignerOrSeed),
        },
{
    match find_pda(seeds, program_id) {
        Some(p) => Ok(p),
        None => Err(DaoError::InvalidSignerOrSeed),
    }
}

/// The seed list of a derived capability: a fixed domain string, the parent
/// identity, and optionally a participant identity.
pub open spec fn capability_seeds(
    domain: Domain,
    parent: Seq<u8>,
    participant: Option<Seq<u8>>,
) -> Seq<Seq<u8>> {
    match participant {
        Some(p) => seq![domain_bytes_spec(domain), parent, p],
        None => seq![domain_bytes_spec(domain), parent],
    }
}

/// Reconstructs a bounded signing capability from its domain string and
/// identity inputs.  The capability is a pure function of those inputs, so
/// it is recomputed on demand and never stored as a secret; reconstruction
/// with any other inputs yields a different address.
pub fn derive_capability(
    program_id: &Addr,
    domain: Domain,
    parent: &Addr,
    participant: Option<&Addr>,
) -> (r: Result<(Addr, u8), DaoError>)
    ensures
        ({
            let pview = match participant {
                Some(p) => Some(p@),
                None => None::<Seq<u8>>,
            };
            match pda_of(capability_seeds(domain, parent@, pview), program_id@) {
                Some(p) => r matches Ok(q) && q.0@ == p.0 && q.1 == p.1,
                None => r == Err::<(Addr, u8), DaoError>(DaoError::InvalidSignerOrSeed),
            }
        }),
{
    let mut seeds: Vec<Vec<u8>> = Vec::new();
    seeds.push(domain_bytes(domain));
    seeds.push(slice_to_vec(parent.0.as_slice()));
    match participant {
        Some(p) => {
            seeds.push(slice_to_vec(p.0.as_slice()));
        },
        None => {},
    }
    proof {
        let pview = match participant {
            Some(p) => Some(p@),
            None => None::<Seq<u8>>,
        };
        assert(seeds@.map_values(|s: Vec<u8>| s@) =~= capability_seeds(domain, parent@, pview));
    }
    derive_address(program_id, &seeds)
}

/// One sub-action of an executable payload, run under a derived capability
/// once its proposal succeeds.
#[derive(Clone, Debug)]
pub struct InstructionData {
    /// The declared target of the sub-action.
    pub program_id: Addr,
    /// The opaque payload handed to the target.
    pub data: Vec<u8>,
    /// The account references the sub-action touches.
    pub keys: Vec<InstructionAccount>,
}

/// One declared account reference of a sub-action.
#[derive(Clone, Copy, Debug)]
pub struct InstructionAccount {
    /// The referenced account.
    pub pubkey: Addr,
    /// Whether the reference must sign.
    pub is_signer: bool,
    /// Whether the reference may be written.
    pub is_writable: bool,
}

/// Whether the supplied references starting at `pos` match the declared
/// ones of every sub-action from the front of the list: for each sub-action
/// the first supplied reference is its declared target and the following
/// ones are its declared account references, in order.
pub open spec fn refs_match_from(
    ixs: Seq<InstructionData>,
    supplied: Seq<Addr>,
    pos: int,
) -> bool
    decreases ixs.len(),
{
    if ixs.len() == 0 {
        true
    } else {
        &&& pos + 1 + ixs[0].keys@.len() <= supplied.len()
        &&& supplied[pos]@ == ixs[0].program_id@
        &&& (forall|j: int|
            0 <= j < ixs[0].keys@.len() ==> supplied[pos + 1 + j]@ == #[trigger] ixs[0].keys@[j].pubkey@)
        &&& refs_match_from(ixs.drop_first(), supplied, pos + 1 + ixs[0].keys@.len())
    }
}

/// Whether the supplied reference list validates the whole sub-action list.
pub open spec fn refs_match(ixs: Seq<InstructionData>, supplied: Seq<Addr>) -> bool {
    refs_match_from(ixs, supplied, 0)
}

fn check_refs_from(ixs: &Vec<InstructionData>, supplied: &Vec<Addr>, idx: usize, pos: usize) -> (r:
    Result<(), DaoError>)
    requires
        idx <= ixs@.len(),
        pos <= supplied@.len(),
    ensures
        r is Ok <==> refs_match_from(ixs@.skip(idx as int), supplied@, pos as int),
        r is Err ==> r == Err::<(), DaoError>(DaoError::InvalidInstructionData),
    decreases ixs@.len() - idx,
{
    if idx == ixs.len() {
        assert(ixs@.skip(idx as int) =~= Seq::<InstructionData>::empty());
        return Ok(());
    }
    assert(ixs@.skip(idx as int)[0] == ixs@[idx as int]);
    assert(ixs@.skip(idx as int).drop_first() =~= ixs@.skip(idx as int + 1));
    let nkeys = ixs[idx].keys.len();
    if pos >= supplied.len() || supplied.len() - pos - 1 < nkeys {
        return Err(DaoError::InvalidInstructionData);
    }
    if !addr_eq(&supplied[pos], &ixs[idx].program_id) {
        return Err(DaoError::InvalidInstructionData);
    }
    let mut j: usize = 0;
    while j < nkeys
        invariant
            j <= nkeys,
            idx < ixs@.len(),
            nkeys == ixs@[idx as int].keys@.len(),
            pos + 1 + nkeys <= supplied@.len(),
            supplied@.len() == supplied.len(),
            forall|t: int|
                0 <= t < j ==> supplied@[pos + 1 + t]@ == #[trigger] ixs@[idx as int].keys@[t].pubkey@,
        decreases nkeys - j,
    {
        if !addr_eq(&supplied[pos + 1 + j], &ixs[idx].keys[j].pubkey) {
            return Err(DaoError::InvalidInstructionData);
        }
        j += 1;
    }
    check_refs_from(ixs, supplied, idx + 1, pos + 1 + nkeys)
}

/// Validates a caller-supplied reference list against the declared targets
/// and account references of a sub-action list; fails with
/// `InvalidInstructionData` exactly when any reference is missing or does
/// not match.
pub fn check_instruction_refs(ixs: &Vec<InstructionData>, supplied: &Vec<Addr>) -> (r: Result<
    (),
    DaoError,
>)
    ensures
        r is Ok <==> refs_match(ixs@, supplied@),
        r is Err ==> r == Err::<(), DaoError>(DaoError::InvalidInstructionData),
{
    assert(ixs@.skip(0) =~= ixs@);
    check_refs_from(ixs, supplied, 0, 0)
}

} // verus!

use vstd::prelude::*;

verus! {

/// The fixed domain strings that scope derived capabilities and persisted
/// record addresses.  Each derivation seed list starts with one of these, so
/// capabilities of different kinds can never collide.
#[derive(Clone, Copy, Debug, PartialEq, Eq, Structural)]
pub enum Domain {
    /// `"auth"`: the registry's master signing authority.
    Auth,
    /// `"config"`: the configuration registry record.
    Config,
    /// `"mint"`: the registry's collection mint.
    Mint,
    /// `"treasury"`: the main treasury pool.
    MainTreasury,
    /// `"dev-treasury"`: the development treasury pool.
    DevTreasury,
    /// `"ops-treasury"`: the operations treasury pool.
    OpsTreasury,
    /// `"multisig"`: the multisig roster record.
    Multisig,
    /// `"multisig-treasury"`: the multisig-controlled treasury pool.
    MultisigTreasury,
    /// `"stake"`: a participant's stake ledger record.
    Stake,
    /// `"proposal"`: a proposal record.
    Proposal,
    /// `"vote"`: a vote record.
    Vote,
}

/// The byte string of a domain, in ASCII.
pub open spec fn domain_bytes_spec(d: Domain) -> Seq<u8> {
    match d {
        Domain::Auth => seq![97u8, 117, 116, 104],
        Domain::Config => seq![99u8, 111, 110, 102, 105, 103],
        Domain::Mint => seq![109u8, 105, 110, 116],
        Domain::MainTreasury => seq![116u8, 114, 101, 97, 115, 117, 114, 121],
        Domain::DevTreasury => seq![100u8, 101, 118, 45, 116, 114, 101, 97, 115, 117, 114, 121],
        Domain::OpsTreasury => seq![111u8, 112, 115, 45, 116, 114, 101, 97, 115, 117, 114, 121],
        Domain::Multisig => seq![109u8, 117, 108, 116, 105, 115, 105, 103],
        Domain::MultisigTreasury => seq![
            109u8, 117, 108, 116, 105, 115, 105, 103, 45, 116, 114, 101, 97, 115, 117, 114, 121,
        ],
        Domain::Stake => seq![115u8, 116, 97, 107, 101],
        Domain::Proposal => seq![112u8, 114, 111, 112, 111, 115, 97, 108],
        Domain::Vote => seq![118u8, 111, 116, 101],
    }
}

/// Builds the byte string of a domain.
pub fn domain_bytes(d: Domain) -> (r: Vec<u8>)
    ensures
        r@ == domain_bytes_spec(d),
{
    let mut r: Vec<u8> = Vec::new();
    match d {
        Domain::Auth => {
            r.push(97);
            r.push(117);
            r.push(116);
            r.push(104);
        },
        Domain::Config => {
            r.push(99);
            r.push(111);
            r.push(110);
            r.push(102);
            r.push(105);
            r.push(103);
        },
        Domain::Mint => {
            r.push(109);
            r.push(105);
            r.push(110);
            r.push(116);
        },
        Domain::MainTreasury => {
            r.push(116);
            r.push(114);
            r.push(101);
            r.push(97);
            r.push(115);
            r.push(117);
            r.push(114);
            r.push(121);
        },
        Domain::DevTreasury => {
            r.push(100);
            r.push(101);
            r.push(118);
            r.push(45);
            r.push(116);
            r.push(114);
            r.push(101);
            r.push(97);
            r.push(115);
            r.push(117);
            r.push(114);
            r.push(121);
        },
        Domain::OpsTreasury => {
            r.push(111);
            r.push(112);
            r.push(115);
            r.push(45);
            r.push(116);
            r.push(114);
            r.push(101);
            r.push(97);
            r.push(115);
            r.push(117);
            r.push(114);
            r.push(121);
        },
        Domain::Multisig => {
            r.push(109);
            r.push(117);
            r.push(108);
            r.push(116);
            r.push(105);
            r.push(115);
            r.push(105);
            r.push(103);
        },
        Domain::MultisigTreasury => {
            r.push(109);
            r.push(117);
            r.push(108);
            r.push(116);
            r.push(105);
            r.push(115);
            r.push(105);
            r.push(103);
            r.push(45);
            r.push(116);
            r.push(114);
            r.push(101);
            r.push(97);
            r.push(115);
            r.push(117);
            r.push(114);
            r.push(121);
        },
        Domain::Stake => {
            r.push(115);
            r.push(116);
            r.push(97);
            r.push(107);
            r.push(101);
        },
        Domain::Proposal => {
            r.push(112);
            r.push(114);
            r.push(111);
            r.push(112);
            r.push(111);
            r.push(115);
            r.push(97);
            r.push(108);
        },
        Domain::Vote => {
            r.push(118);
            r.push(111);
            r.push(116);
            r.push(101);
        },
    }
    assert(r@ =~= domain_bytes_spec(d));
    r
}

} // verus!

use vstd::prelude::*;
use vstd::slice::slice_to_vec;

use anchor_lang::solana_program::pubkey::Pubkey;

verus! {

/// What the ledger SDK's program-address derivation returns for a given
/// list of seed byte strings and a program id: either the derived address
/// (as its 32 bytes) with its bump, or nothing when no bump yields a valid
/// keyless address.  The result depends on the seeds and the program id
/// alone — the same inputs give the same address on every machine.
pub uninterp spec fn derived_authority(seeds: Seq<Seq<u8>>, program: Seq<u8>) -> Option<
    (Seq<u8>, u8),
>;

/// Relies on Pubkey::try_find_program_address (re-exported by anchor_lang
/// from the ledger SDK): a pure function of the seed byte strings and the
/// program id, returning an address that has no private key, plus the bump
/// that disambiguated the derivation.
#[verifier::external_body]
fn find_derived_address(seeds: &Vec<Vec<u8>>, program: &[u8; 32]) -> (r: Option<([u8; 32], u8)>)
    ensures
        (match r {
            Some(p) => derived_authority(seeds.deep_view(), program@) == Some((p.0@, p.1)),
            None => derived_authority(seeds.deep_view(), program@) is None,
        }),
{
    let refs: Vec<&[u8]> = seeds.iter().map(|s| s.as_slice()).collect();
    let pid = Pubkey::new_from_array(*program);
    Pubkey::try_find_program_address(&refs, &pid).map(|(pk, bump)| (pk.to_bytes(), bump))
}

/// The domain tag of the escrow derivation: the bytes of "escrow".
pub open spec fn escrow_tag() -> Seq<u8> {
    seq![101u8, 115u8, 99u8, 114u8, 111u8, 119u8]
}

/// The little-endian bytes of a 64-bit seed.
pub open spec fn u64_le_bytes(x: u64) -> Seq<u8> {
    seq![
        (x % 256) as u8,
        ((x / 256) % 256) as u8,
        ((x / 65536) % 256) as u8,
        ((x / 16777216) % 256) as u8,
        ((x / 4294967296) % 256) as u8,
        ((x / 1099511627776) % 256) as u8,
        ((x / 281474976710656) % 256) as u8,
        ((x / 72057594037927936) % 256) as u8,
    ]
}

/// The seed byte strings of the escrow derivation: the domain tag, the
/// maker's identity bytes, and the seed's little-endian bytes.
pub open spec fn escrow_seeds(maker: Seq<u8>, seed: u64) -> Seq<Seq<u8>> {
    seq![escrow_tag(), maker, u64_le_bytes(seed)]
}

/// The escrow record's signing authority under `program` for a given maker
/// and seed.
pub open spec fn escrow_authority(program: Seq<u8>, maker: Seq<u8>, seed: u64) -> Option<
    (Seq<u8>, u8),
> {
    derived_authority(escrow_seeds(maker, seed), program)
}

/// The little-endian bytes of `x`, as the derivation consumes them.
fn u64_le_vec(x: u64) -> (r: Vec<u8>)
    ensures
        r@ == u64_le_bytes(x),
{
    let mut r: Vec<u8> = Vec::new();
    r.push((x % 256) as u8);
    r.push(((x / 256) % 256) as u8);
    r.push(((x / 65536) % 256) as u8);
    r.push(((x / 16777216) % 256) as u8);
    r.push(((x / 4294967296) % 256) as u8);
    r.push(((x / 1099511627776) % 256) as u8);
    r.push(((x / 281474976710656) % 256) as u8);
    r.push(((x / 72057594037927936) % 256) as u8);
    proof {
        assert(r@ =~= u64_le_bytes(x));
    }
    r
}

/// Derive the escrow record's address and bump for (program, maker, seed):
/// the capability that alone may authorize transfers out of the vault.
pub fn derive_escrow_authority(program: &[u8; 32], maker: &[u8; 32], seed: u64) -> (r: Option<
    ([u8; 32], u8),
>)
    ensures
        (match r {
            Some(p) => escrow_authority(program@, maker@, seed) == Some((p.0@, p.1)),
            None => escrow_authority(program@, maker@, seed) is None,
        }),
{
    let mut tag: Vec<u8> = Vec::new();
    tag.push(101u8);
    tag.push(115u8);
    tag.push(99u8);
    tag.push(114u8);
    tag.push(111u8);
    tag.push(119u8);
    let maker_bytes: Vec<u8> = slice_to_vec(maker.as_slice());
    let seed_bytes: Vec<u8> = u64_le_vec(seed);
    let mut seeds: Vec<Vec<u8>> = Vec::new();
    seeds.push(tag);
    seeds.push(maker_bytes);
    seeds.push(seed_bytes);
    proof {
        assert(seeds.deep_view() =~~= escrow_seeds(maker@, seed));
    }
    find_derived_address(&seeds, program)
}

/// Whether two 32-byte addresses are the same.
fn bytes32_eq(a: &[u8; 32], b: &[u8; 32]) -> (r: bool)
    ensures
        r == (a@ == b@),
{
    let mut i: usize = 0;
    while i < 32
        invariant
            i <= 32,
            forall|j: int| 0 <= j < i ==> a@[j] == b@[j],
        decreases 32 - i,
    {
        if a[i] != b[i] {
            proof {
                assert(a@[i as int] != b@[i as int]);
            }
            return false;
        }
        i = i + 1;
    }
    proof {
        assert(a@ =~= b@);
    }
    true
}

/// Check a claimed (address, bump) pair against the derivation for
/// (program, maker, seed).  A take or refund must reproduce exactly this
/// tuple to move funds out of the vault; any mismatch is rejected rather
/// than trusting a different authority.
pub fn escrow_authority_matches(
    program: &[u8; 32],
    maker: &[u8; 32],
    seed: u64,
    claimed: &[u8; 32],
    claimed_bump: u8,
) -> (r: bool)
    ensures
        r == (escrow_authority(program@, maker@, seed) == Some((claimed@, claimed_bump))),
{
    match derive_escrow_authority(program, maker, seed) {
        None => false,
        Some(p) => {
            let (addr, bump) = p;
            if bump != claimed_bump {
                proof {
                    assert(escrow_authority(program@, maker@, seed) != Some(
                        (claimed@, claimed_bump),
                    ));
                }
                false
            } else {
                bytes32_eq(&addr, claimed)
            }
        },
    }
}

} // verus!

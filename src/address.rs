use vstd::prelude::*;
use crate::key::Pubkey;
use vstd::string::StringSliceAdditionalSpecFns;

verus! {

/// Namespace tag that every blog slot address is derived under.
pub open spec fn blog_namespace() -> Seq<u8> {
    "blog".spec_bytes()
}

/// The SHA-256 digest of a byte string.
pub uninterp spec fn sha256_of(data: Seq<u8>) -> Seq<u8>;

/// The program-derived address of a seed list under a program id, with its
/// bump seed, or `None` when no such address exists.
pub uninterp spec fn program_address_of(seeds: Seq<Seq<u8>>, program_id: Seq<u8>) -> Option<(Seq<u8>, u8)>;

/// Longest seed that address derivation takes.
pub const MAX_SEED_LEN: usize = 32;

/// The seeds of a blog slot: the namespace, the owner and the title.
pub open spec fn blog_seeds(owner: Seq<u8>, title: Seq<u8>) -> Seq<Seq<u8>> {
    seq![blog_namespace(), owner, title]
}

/// Relies on solana_program::hash::hash: the SHA-256 digest of `data`.
#[verifier::external_body]
pub(crate) fn sha256(data: &[u8]) -> (r: [u8; 32])
    ensures
        r@ == sha256_of(data@),
{
    anchor_lang::solana_program::hash::hash(data).to_bytes()
}

/// Relies on Pubkey::try_find_program_address: the derived address and bump
/// of `seeds` under `program_id`; no address is found when a seed is longer
/// than `MAX_SEED_LEN` bytes.
#[verifier::external_body]
pub(crate) fn try_find_program_address(seeds: &Vec<Vec<u8>>, program_id: &Pubkey) -> (r: Option<(Pubkey, u8)>)
    ensures
        r matches Some((a, b)) ==> program_address_of(seeds@.map_values(|s: Vec<u8>| s@), program_id@) == Some((a@, b)),
        r is None ==> program_address_of(seeds@.map_values(|s: Vec<u8>| s@), program_id@) is None,
        (exists|i: int| 0 <= i < seeds@.len() && seeds@[i]@.len() > MAX_SEED_LEN) ==> r is None,
{
    let refs: Vec<&[u8]> = seeds.iter().map(|s| s.as_slice()).collect();
    let pid = anchor_lang::prelude::Pubkey::new_from_array(program_id.bytes);
    anchor_lang::prelude::Pubkey::try_find_program_address(&refs, &pid).map(
        |(a, b)| (Pubkey { bytes: a.to_bytes() }, b),
    )
}

/// The derived slot address of a blog entry with this owner and title under
/// `program_id`, with its bump.
pub fn find_blog_address(owner: &Pubkey, title: &str, program_id: &Pubkey) -> (r: Option<(Pubkey, u8)>)
    ensures
        r matches Some((a, b)) ==> program_address_of(blog_seeds(owner@, title.spec_bytes()), program_id@) == Some((a@, b)),
        r is None ==> program_address_of(blog_seeds(owner@, title.spec_bytes()), program_id@) is None,
        title.spec_bytes().len() > MAX_SEED_LEN ==> r is None,
{
    let ns = "blog".as_bytes();
    let t = title.as_bytes();
    let mut seeds: Vec<Vec<u8>> = Vec::new();
    seeds.push(vstd::slice::slice_to_vec(ns));
    seeds.push(owner.to_vec());
    seeds.push(vstd::slice::slice_to_vec(t));
    assert(seeds@.map_values(|s: Vec<u8>| s@) =~= blog_seeds(owner@, title.spec_bytes()));
    try_find_program_address(&seeds, program_id)
}

} // verus!

use crate::state::Key;
use vstd::prelude::*;

verus! {

/// The address, with its bump seed, that the runtime derives for a program
/// from a list of seeds; `None` where no bump seed yields a valid address.
pub uninterp spec fn program_address_of(seeds: Seq<Seq<u8>>, program_id: Seq<u8>) -> Option<
    (Seq<u8>, u8),
>;

/// The view of a derived address and its bump seed.
pub open spec fn derived_view(d: Option<(Key, u8)>) -> Option<(Seq<u8>, u8)> {
    match d {
        Some((a, b)) => Some((a@, b)),
        None => None,
    }
}

/// The seeds as byte sequences.
pub open spec fn seeds_view(seeds: Seq<Vec<u8>>) -> Seq<Seq<u8>> {
    seeds.map_values(|s: Vec<u8>| s@)
}

/// Relies on `Pubkey::try_find_program_address` of solana-program (as
/// re-exported by anchor-lang): a deterministic function of the seeds and the
/// program id that returns the first off-curve address found from bump seed
/// 255 downwards, or `None`. It does not panic.
#[verifier::external_body]
fn try_find_program_address(seeds: &Vec<Vec<u8>>, program_id: &Key) -> (r: Option<(Key, u8)>)
    ensures
        derived_view(r) == program_address_of(seeds_view(seeds@), program_id@),
{
    let refs: Vec<&[u8]> = seeds.iter().map(|s| s.as_slice()).collect();
    let program = anchor_lang::prelude::Pubkey::new_from_array(*program_id);
    anchor_lang::prelude::Pubkey::try_find_program_address(&refs, &program).map(
        |(k, b)| (k.to_bytes(), b),
    )
}

/// The tag that starts the seeds of every escrow address: the bytes of "vault".
pub open spec fn escrow_tag() -> Seq<u8> {
    seq![118u8, 97u8, 117u8, 108u8, 116u8]
}

/// The eight little-endian bytes of `x`.
pub open spec fn le_bytes(x: u64) -> Seq<u8> {
    seq![
        (x % 256) as u8,
        (x / 0x100 % 256) as u8,
        (x / 0x10000 % 256) as u8,
        (x / 0x1000000 % 256) as u8,
        (x / 0x100000000 % 256) as u8,
        (x / 0x10000000000 % 256) as u8,
        (x / 0x1000000000000 % 256) as u8,
        (x / 0x100000000000000 % 256) as u8,
    ]
}

/// The seeds of the escrow address of the vault `id` created by `authority`.
pub open spec fn escrow_seeds(authority: Seq<u8>, id: u64) -> Seq<Seq<u8>> {
    seq![escrow_tag(), authority, le_bytes(id)]
}

/// The eight little-endian bytes of `x`.
pub fn to_le_bytes(x: u64) -> (r: Vec<u8>)
    ensures
        r@ == le_bytes(x),
{
    let r = vec![
        (x % 256) as u8,
        (x / 0x100 % 256) as u8,
        (x / 0x10000 % 256) as u8,
        (x / 0x1000000 % 256) as u8,
        (x / 0x100000000 % 256) as u8,
        (x / 0x10000000000 % 256) as u8,
        (x / 0x1000000000000 % 256) as u8,
        (x / 0x100000000000000 % 256) as u8,
    ];
    assert(r@ =~= le_bytes(x));
    r
}

/// Derives the escrow address of the vault `id` created by `authority`
/// under the program `program_id`.
pub fn derive_escrow_address(authority: &Key, id: u64, program_id: &Key) -> (r: Option<(Key, u8)>)
    ensures
        derived_view(r) == program_address_of(escrow_seeds(authority@, id), program_id@),
{
    let tag: Vec<u8> = vec![118u8, 97u8, 117u8, 108u8, 116u8];
    let mut who: Vec<u8> = Vec::new();
    let mut i: usize = 0;
    while i < 32
        invariant
            i <= 32,
            authority@.len() == 32,
            who@ == authority@.subrange(0, i as int),
        decreases 32 - i,
    {
        who.push(authority[i]);
        i = i + 1;
        assert(who@ =~= authority@.subrange(0, i as int));
    }
    assert(who@ =~= authority@);
    assert(tag@ =~= escrow_tag());
    let seeds: Vec<Vec<u8>> = vec![tag, who, to_le_bytes(id)];
    assert(seeds_view(seeds@) =~= escrow_seeds(authority@, id));
    try_find_program_address(&seeds, program_id)
}

} // verus!

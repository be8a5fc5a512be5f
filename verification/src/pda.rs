use vstd::prelude::*;

verus! {

/// The digits of a slot or partition index in decimal ASCII.
pub open spec fn spec_decimal_digits(i: u8) -> Seq<u8> {
    if i < 10 {
        seq![(48 + i) as u8]
    } else if i < 100 {
        seq![(48 + i / 10) as u8, (48 + i % 10) as u8]
    } else {
        seq![(48 + i / 100) as u8, (48 + (i / 10) % 10) as u8, (48 + i % 10) as u8]
    }
}

/// The seed naming a partition's custodial balance: the ASCII bytes of
/// `token_vault_` followed by the partition index in decimal.
pub open spec fn spec_seed_bytes(i: u8) -> Seq<u8> {
    seq![116u8, 111u8, 107u8, 101u8, 110u8, 95u8, 118u8, 97u8, 117u8, 108u8, 116u8, 95u8]
        + spec_decimal_digits(i)
}

/// Builds the custodial-balance seed for a partition index.
pub fn get_token_vault_seed(vault_index: u8) -> (r: Vec<u8>)
    ensures
        r@ == spec_seed_bytes(vault_index),
{
    let mut v: Vec<u8> = Vec::new();
    v.push(116);
    v.push(111);
    v.push(107);
    v.push(101);
    v.push(110);
    v.push(95);
    v.push(118);
    v.push(97);
    v.push(117);
    v.push(108);
    v.push(116);
    v.push(95);
    if vault_index < 10 {
        v.push(48 + vault_index);
    } else if vault_index < 100 {
        v.push(48 + vault_index / 10);
        v.push(48 + vault_index % 10);
    } else {
        v.push(48 + vault_index / 100);
        v.push(48 + (vault_index / 10) % 10);
        v.push(48 + vault_index % 10);
    }
    proof {
        assert(v@ =~= spec_seed_bytes(vault_index));
    }
    v
}

/// The derived address and bump seed for a seed pair under a program id,
/// or `None` when no bump seed yields a valid derived address.
pub uninterp spec fn pda_of(seed: Seq<u8>, mint: Seq<u8>, program_id: Seq<u8>) -> Option<(Seq<u8>, u8)>;

/// Relies on solana_pubkey::Pubkey::try_find_program_address: the derived
/// custodial address and its bump seed are a pure function of the seed
/// slices and the program id, the address is 32 bytes, and the search fails
/// exactly when no bump seed yields an address off the ed25519 curve.
#[verifier::external_body]
fn find_pda(seed: &Vec<u8>, mint: &Vec<u8>, program_id: &Vec<u8>) -> (r: Option<(Vec<u8>, u8)>)
    requires
        mint@.len() == 32,
        program_id@.len() == 32,
    ensures
        match r {
            Some(p) => pda_of(seed@, mint@, program_id@) == Some((p.0@, p.1)) && p.0@.len() == 32,
            None => pda_of(seed@, mint@, program_id@) is None,
        },
{
    let mut mint_bytes = [0u8; 32];
    mint_bytes.copy_from_slice(mint.as_slice());
    let mut pid_bytes = [0u8; 32];
    pid_bytes.copy_from_slice(program_id.as_slice());
    let mint_key = solana_pubkey::Pubkey::new_from_array(mint_bytes);
    let pid = solana_pubkey::Pubkey::new_from_array(pid_bytes);
    solana_pubkey::Pubkey::try_find_program_address(&[seed.as_slice(), mint_key.as_ref()], &pid)
        .map(|(key, bump)| (key.to_bytes().to_vec(), bump))
}

/// The expected custodial address and bump seed for a token's partition
/// under a program id.
pub fn get_token_account_pda(mint: &Vec<u8>, vault_index: u8, program_id: &Vec<u8>) -> (r: Option<(Vec<u8>, u8)>)
    requires
        mint@.len() == 32,
        program_id@.len() == 32,
    ensures
        match r {
            Some(p) => pda_of(spec_seed_bytes(vault_index), mint@, program_id@) == Some((p.0@, p.1))
                && p.0@.len() == 32,
            None => pda_of(spec_seed_bytes(vault_index), mint@, program_id@) is None,
        },
{
    let seed = get_token_vault_seed(vault_index);
    find_pda(&seed, mint, program_id)
}

/// Byte-for-byte equality of two addresses.
pub fn bytes_equal(a: &Vec<u8>, b: &Vec<u8>) -> (r: bool)
    ensures
        r == (a@ == b@),
{
    if a.len() != b.len() {
        proof {
            assert(a@ != b@);
        }
        return false;
    }
    let mut i: usize = 0;
    while i < a.len()
        invariant
            a@.len() == b@.len(),
            i <= a@.len(),
            forall|j: int| 0 <= j < i ==> a@[j] == b@[j],
        decreases a@.len() - i,
    {
        if a[i] != b[i] {
            return false;
        }
        i = i + 1;
    }
    proof {
        assert(a@ =~= b@);
    }
    true
}

} // verus!

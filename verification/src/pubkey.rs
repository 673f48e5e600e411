//! Account addresses and the addresses derived from them.

use vstd::prelude::*;
use vstd::std_specs::cmp::PartialEqSpecImpl;

verus! {

/// A 32-byte account address. It names a participant, a ledger, a program or
/// an account that holds value.
#[derive(Clone, Copy, Debug, Default, Eq, Hash)]
pub struct Pubkey {
    pub bytes: [u8; 32],
}

impl View for Pubkey {
    type V = Seq<u8>;

    open spec fn view(&self) -> Seq<u8> {
        self.bytes@
    }
}

impl PartialEq for Pubkey {
    fn eq(&self, other: &Self) -> (r: bool) {
        let mut i: usize = 0;
        while i < 32
            invariant
                i <= 32,
                forall|j: int| 0 <= j < i ==> self.bytes[j] == other.bytes[j],
            decreases 32 - i,
        {
            if self.bytes[i] != other.bytes[i] {
                return false;
            }
            i += 1;
        }
        assert(self.bytes =~= other.bytes);
        true
    }
}

impl PartialEqSpecImpl for Pubkey {
    open spec fn obeys_eq_spec() -> bool {
        true
    }

    open spec fn eq_spec(&self, other: &Self) -> bool {
        *self == *other
    }
}

impl Pubkey {
    /// The address made of the given bytes.
    pub fn new_from_array(bytes: [u8; 32]) -> (r: Self)
        ensures
            r.bytes == bytes,
    {
        Pubkey { bytes }
    }

    /// The bytes of the address.
    pub fn to_bytes(self) -> (r: [u8; 32])
        ensures
            r == self.bytes,
    {
        self.bytes
    }
}

/// Two addresses are the same exactly when their bytes agree.
pub proof fn lemma_same_bytes_same_address(a: Pubkey, b: Pubkey)
    ensures
        (a == b) <==> (a@ == b@),
{
    if a@ == b@ {
        assert(a.bytes =~= b.bytes);
    }
}

/// The address whose bytes are `bytes`.
pub open spec fn address_of(bytes: Seq<u8>) -> Pubkey {
    choose|k: Pubkey| k@ == bytes
}

/// `address_of` undoes the view of an address.
pub proof fn lemma_address_of_view(k: Pubkey)
    ensures
        address_of(k@) == k,
{
    lemma_same_bytes_same_address(address_of(k@), k);
}

/// What `Pubkey::try_find_program_address` of the Solana SDK returns for the
/// given seeds and program: the derived address and its bump seed, or `None`
/// where the search finds no bump seed. Seeds, program and address are given
/// by their bytes.
pub uninterp spec fn program_address(seeds: Seq<Seq<u8>>, program_id: Seq<u8>) -> Option<
    (Seq<u8>, u8),
>;

/// The bytes of each address of `seeds`, in order.
pub open spec fn seed_bytes(seeds: Seq<Pubkey>) -> Seq<Seq<u8>> {
    Seq::new(seeds.len(), |i: int| seeds[i]@)
}

/// The address derived under `program_id` from the addresses `seeds`, each
/// taken as one seed, and the bump seed that goes with it.
pub open spec fn derived_address(seeds: Seq<Pubkey>, program_id: Pubkey) -> Option<(Pubkey, u8)> {
    match program_address(seed_bytes(seeds), program_id@) {
        Some((address, bump)) => Some((address_of(address), bump)),
        None => None,
    }
}

/// Calls `Pubkey::try_find_program_address` of the Solana SDK with each
/// address of `seeds` as one 32-byte seed. The contract names the result and
/// claims nothing more: the search hashes the seeds, a bump seed and the
/// program's address, so it is a function of its arguments alone, and it
/// answers `None` where `find_program_address` would panic.
#[verifier::external_body]
fn try_find_program_address(seeds: &Vec<Pubkey>, program_id: &Pubkey) -> (r: Option<(Pubkey, u8)>)
    ensures
        match r {
            Some((address, bump)) => program_address(seed_bytes(seeds@), program_id@) == Some(
                (address@, bump),
            ),
            None => program_address(seed_bytes(seeds@), program_id@) is None,
        },
{
    let raw: Vec<&[u8]> = seeds.iter().map(|k| &k.bytes[..]).collect();
    let program = anchor_lang::prelude::Pubkey::new_from_array(program_id.bytes);
    match anchor_lang::prelude::Pubkey::try_find_program_address(&raw, &program) {
        Some((address, bump)) => Some((Pubkey { bytes: address.to_bytes() }, bump)),
        None => None,
    }
}

/// Derives an address, and the bump seed that goes with it, from `seeds`
/// under `program_id`. `None` where no address can be derived.
pub fn find_program_address(seeds: &Vec<Pubkey>, program_id: &Pubkey) -> (r: Option<(Pubkey, u8)>)
    ensures
        r == derived_address(seeds@, *program_id),
{
    let found = try_find_program_address(seeds, program_id);
    proof {
        if let Some((address, _)) = found {
            lemma_address_of_view(address);
        }
    }
    found
}

/// The address by which a ledger owns its custody pool and signs transfers
/// out of it: the one derived from the ledger's own address under the program
/// that runs the ledger. No person holds a key to it.
pub open spec fn pool_authority(game_key: Pubkey, program_id: Pubkey) -> Option<Pubkey> {
    match derived_address(seq![game_key], program_id) {
        Some((address, _)) => Some(address),
        None => None,
    }
}

/// Computes `pool_authority`.
pub fn find_pool_authority(game_key: &Pubkey, program_id: &Pubkey) -> (r: Option<Pubkey>)
    ensures
        r == pool_authority(*game_key, *program_id),
{
    let seeds = vec![*game_key];
    assert(seeds@ =~= seq![*game_key]);
    match find_program_address(&seeds, program_id) {
        Some((address, _)) => Some(address),
        None => None,
    }
}

/// Bytes of the address of the token program.
pub const TOKEN_PROGRAM_ID: [u8; 32] = [
    6, 221, 246, 225, 215, 101, 161, 147, 217, 203, 225, 70, 206, 235, 121, 172, 28, 180, 133, 237,
    95, 91, 55, 145, 58, 140, 245, 133, 126, 255, 0, 169,
];

/// Bytes of the address of the associated-token-account program.
pub const ASSOCIATED_TOKEN_PROGRAM_ID: [u8; 32] = [
    140, 151, 37, 143, 78, 36, 137, 241, 187, 61, 16, 41, 20, 142, 13, 131, 11, 90, 19, 153, 218,
    255, 16, 132, 4, 142, 123, 216, 219, 233, 248, 89,
];

/// The canonical account in which `wallet` holds units of `mint`: the address
/// derived from the wallet, the token program and the mint, in this order,
/// under the associated-token-account program.
pub open spec fn associated_token_address(wallet: Pubkey, mint: Pubkey) -> Option<Pubkey> {
    match derived_address(
        seq![wallet, Pubkey { bytes: TOKEN_PROGRAM_ID }, mint],
        Pubkey { bytes: ASSOCIATED_TOKEN_PROGRAM_ID },
    ) {
        Some((address, _)) => Some(address),
        None => None,
    }
}

/// Computes `associated_token_address`.
pub fn get_associated_token_address(wallet: &Pubkey, mint: &Pubkey) -> (r: Option<Pubkey>)
    ensures
        r == associated_token_address(*wallet, *mint),
{
    let seeds = vec![*wallet, Pubkey { bytes: TOKEN_PROGRAM_ID }, *mint];
    let program = Pubkey { bytes: ASSOCIATED_TOKEN_PROGRAM_ID };
    assert(seeds@ =~= seq![*wallet, Pubkey { bytes: TOKEN_PROGRAM_ID }, *mint]);
    match find_program_address(&seeds, &program) {
        Some((address, _)) => Some(address),
        None => None,
    }
}

} // verus!

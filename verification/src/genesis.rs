//! The genesis configuration: a number of kitties made for alice when the chain starts.
use vstd::prelude::*;

use crate::encoding::{blake2_256_of, blake_two_256, decimal, push_decimal, scale_bytes, scale_encode_bytes};
use crate::pallet::{Pallet, PalletState};
use crate::types::{AccountId, Moment, H256};

verus! {

/// The bytes of "alice_kitty_", with which every genesis kitty's name starts.
pub open spec fn genesis_name_prefix() -> Seq<u8> {
    seq![97u8, 108, 105, 99, 101, 95, 107, 105, 116, 116, 121, 95]
}

/// The name of the genesis kitty made when `id` kitties exist: "alice_kitty_" and `id` in decimal.
pub open spec fn genesis_name(id: u32) -> Seq<u8> {
    genesis_name_prefix() + decimal(id as nat)
}

/// The dna of a kitty named `name` at genesis: the blake2-256 hash of the name's SCALE encoding.
pub open spec fn name_dna(name: Seq<u8>) -> H256 {
    choose|h: H256| h@ == blake2_256_of(scale_bytes(name))
}

/// The dna of the genesis kitty made when `id` kitties exist.
pub open spec fn genesis_dna(id: u32) -> H256 {
    name_dna(genesis_name(id))
}

/// The storage after genesis made `n` kitties for `alice` at time `now`, starting from `s`.
pub open spec fn genesis_kitties(s: PalletState, alice: AccountId, n: nat, now: Moment) -> PalletState
    decreases n,
{
    if n == 0 {
        s
    } else {
        let prev = genesis_kitties(s, alice, (n - 1) as nat, now);
        prev.with_new_kitty(
            PalletState::genesis_kitty(
                alice,
                genesis_name(prev.kitty_id),
                genesis_dna(prev.kitty_id),
                now,
            ),
        )
    }
}

/// Ten to the power `k`.
pub open spec fn pow10(k: nat) -> nat
    decreases k,
{
    if k == 0 {
        1
    } else {
        10 * pow10((k - 1) as nat)
    }
}

/// A number below `10^k` has at most `k` decimal digits.
pub proof fn lemma_decimal_len(n: nat, k: nat)
    requires
        1 <= k,
        n < pow10(k),
    ensures
        decimal(n).len() <= k,
    decreases k,
{
    if n >= 10 {
        if k == 1 {
            assert(pow10(1) == 10) by {
                reveal_with_fuel(pow10, 2);
            }
        } else {
            assert(n / 10 < pow10((k - 1) as nat));
            lemma_decimal_len(n / 10, (k - 1) as nat);
        }
    }
}

/// The name of the genesis kitty made when `id` kitties exist.
pub fn genesis_kitty_name(id: u32) -> (r: Vec<u8>)
    ensures
        r@ == genesis_name(id),
{
    let mut name: Vec<u8> = vec![97u8, 108, 105, 99, 101, 95, 107, 105, 116, 116, 121, 95];
    assert(name@ =~= genesis_name_prefix());
    push_decimal(id, &mut name);
    name
}

/// The dna of a genesis kitty named `name`: the blake2-256 hash of the SCALE encoding of its name.
pub fn genesis_kitty_dna(name: &Vec<u8>) -> (r: H256)
    requires
        name@.len() <= u32::MAX,
    ensures
        r == name_dna(name@),
{
    let encoded = scale_encode_bytes(name.as_slice());
    let dna = blake_two_256(encoded.as_slice());
    proof {
        let h = name_dna(name@);
        assert(h@ == blake2_256_of(scale_bytes(name@)));
        assert(h =~= dna);
    }
    dna
}

/// The genesis configuration: how many kitties to make for alice, and alice's account.
pub struct GenesisConfig {
    pub genesis_num_of_kitty_for_alice: u32,
    pub alice_account: Option<AccountId>,
}

impl Default for GenesisConfig {
    fn default() -> (r: GenesisConfig)
        ensures
            r.genesis_num_of_kitty_for_alice == 0,
            r.alice_account is None,
    {
        GenesisConfig { genesis_num_of_kitty_for_alice: 0, alice_account: None }
    }
}

impl GenesisConfig {
    /// Makes `genesis_num_of_kitty_for_alice` kitties for alice, if an account is given for her,
    /// each named after the count of kitties before it and created at `now`.
    pub fn build(&self, pallet: &mut Pallet, now: Moment)
        requires
            self.alice_account is Some ==> old(pallet)@.kitty_id + self.genesis_num_of_kitty_for_alice
                <= u32::MAX,
        ensures
            final(pallet)@ == match self.alice_account {
                Some(alice) => genesis_kitties(
                    old(pallet)@,
                    alice,
                    self.genesis_num_of_kitty_for_alice as nat,
                    now,
                ),
                None => old(pallet)@,
            },
    {
        if let Some(alice) = self.alice_account {
            if self.genesis_num_of_kitty_for_alice > 0u32 {
                let n = self.genesis_num_of_kitty_for_alice;
                let ghost start = pallet@;
                let mut i: u32 = 0;
                while i < n
                    invariant
                        i <= n,
                        start.kitty_id + n <= u32::MAX,
                        pallet@ == genesis_kitties(start, alice, i as nat, now),
                        pallet@.kitty_id == start.kitty_id + i,
                    decreases n - i,
                {
                    let current_id = pallet.kitty_id();
                    let name = genesis_kitty_name(current_id);
                    proof {
                        assert(u32::MAX < pow10(10)) by {
                            reveal_with_fuel(pow10, 11);
                        }
                        lemma_decimal_len(current_id as nat, 10);
                    }
                    let dna_random = genesis_kitty_dna(&name);
                    pallet.add_genesis_kitty(alice, name, dna_random, now);
                    i = i + 1;
                }
            }
        }
    }
}

} // verus!

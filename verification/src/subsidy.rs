//! The block subsidy schedule.

use vstd::prelude::*;
use vstd::arithmetic::div_mod::lemma_div_denominator;
use vstd::arithmetic::power2::{lemma2_to64, lemma_pow2_pos, lemma_pow2_strictly_increases, lemma_pow2_unfold, pow2};
use vstd::bits::lemma_u64_shr_is_div;
use crate::scenario::Network;

verus! {

/// The subsidy of the first epoch: fifty coins, in satoshis.
pub const INITIAL_SUBSIDY: u64 = 5_000_000_000;

/// The halving interval of the low-difficulty test network.
pub const REGTEST_HALVING_INTERVAL: u32 = 150;

/// The standard halving interval.
pub const SUBSIDY_HALVING_INTERVAL: u32 = 210_000;

/// How many blocks an epoch of constant subsidy lasts on `network`.
pub open spec fn halving_interval(network: Network) -> nat {
    if network == Network::Regtest {
        REGTEST_HALVING_INTERVAL as nat
    } else {
        SUBSIDY_HALVING_INTERVAL as nat
    }
}

/// The subsidy in epoch `epoch`: the initial subsidy shifted right by the
/// epoch number.
pub open spec fn subsidy_at_epoch(epoch: nat) -> nat {
    INITIAL_SUBSIDY as nat / pow2(epoch)
}

/// The subsidy of the block at `height` on `network`.
pub open spec fn subsidy_at(network: Network, height: nat) -> nat {
    subsidy_at_epoch(height / halving_interval(network))
}

/// From one epoch to the next the subsidy halves, rounding down.
pub proof fn lemma_subsidy_halves(epoch: nat)
    ensures
        subsidy_at_epoch(epoch + 1) == subsidy_at_epoch(epoch) / 2,
{
    lemma_pow2_pos(epoch);
    lemma_pow2_unfold((epoch + 1) as nat);
    lemma_div_denominator(INITIAL_SUBSIDY as int, pow2(epoch) as int, 2);
    assert(pow2(epoch) * 2 == 2 * pow2(epoch));
}

/// On either kind of network, a block one epoch after another is paid half
/// the other's subsidy, rounded down.
pub proof fn lemma_block_subsidy_halves(network: Network, earlier: nat, later: nat)
    requires
        later / halving_interval(network) == earlier / halving_interval(network) + 1,
    ensures
        subsidy_at(network, later) == subsidy_at(network, earlier) / 2,
{
    lemma_subsidy_halves(earlier / halving_interval(network));
}

/// From epoch 33 on nothing is paid.
pub proof fn lemma_subsidy_runs_out(epoch: nat)
    requires
        epoch >= 33,
    ensures
        subsidy_at_epoch(epoch) == 0,
{
    lemma2_to64();
    lemma_pow2_unfold(33);
    if epoch > 33 {
        lemma_pow2_strictly_increases(33, epoch);
    }
    assert(pow2(epoch) > INITIAL_SUBSIDY);
    vstd::arithmetic::div_mod::lemma_basic_div(INITIAL_SUBSIDY as int, pow2(epoch) as int);
}

/// The subsidy, in satoshis, of the block at `height` on `network`.
pub fn block_subsidy(network: Network, height: u32) -> (subsidy: u64)
    ensures
        subsidy == subsidy_at(network, height as nat),
{
    let halving_interval: u32 = match network {
        Network::Regtest => REGTEST_HALVING_INTERVAL,
        Network::Mainnet | Network::Testnet => SUBSIDY_HALVING_INTERVAL,
    };
    let epoch: u32 = height / halving_interval;
    if epoch >= 64 {
        proof {
            lemma_subsidy_runs_out(epoch as nat);
        }
        0
    } else {
        proof {
            lemma_u64_shr_is_div(INITIAL_SUBSIDY, epoch as u64);
        }
        INITIAL_SUBSIDY >> epoch
    }
}

} // verus!

use vstd::prelude::*;
use crate::models::path_config::PathConfig;
use crate::models::progress::Progress;
use uuid::Uuid;

verus! {

/// The identifier type of uuid, carried through as an opaque value.
#[verifier::external_type_specification]
#[verifier::external_body]
pub struct ExUuid(Uuid);

/// Relies on uuid::Uuid::nil: builds the all-zero identifier; nothing about it is read.
pub assume_specification[ Uuid::nil ]() -> Uuid;

/// Bits that arrive of `amount` sent over `distance`: all of them under the
/// grace period, else `death_rate` fewer per unit beyond it, never below zero.
pub open spec fn arrived(amount: int, distance: int, paths: PathConfig) -> int {
    if distance < paths.grace_period {
        amount
    } else if paths.death_rate * (distance - paths.grace_period) > amount {
        0
    } else {
        amount - paths.death_rate * (distance - paths.grace_period)
    }
}

/// An action travelling between two bases.
#[derive(Debug, PartialEq, Eq, Clone, Copy)]
pub struct BoardAction {
    /// uid of the source base
    pub src: u32,
    /// uid of the destination base
    pub dest: u32,
    /// number of bits moved
    pub amount: u32,
    /// identifier of the action
    pub uuid: Uuid,
    /// id of the player who took the action
    pub player: u32,
    /// travel progress
    pub progress: Progress,
}

impl Default for BoardAction {
    fn default() -> (r: Self)
        ensures
            r.src == 0 && r.dest == 0 && r.amount == 0 && r.player == 0,
            r.progress.distance == 0 && r.progress.traveled == 0,
    {
        BoardAction {
            src: 0,
            dest: 0,
            amount: 0,
            uuid: Uuid::nil(),
            player: 0,
            progress: Progress::default(),
        }
    }
}

impl BoardAction {
    /// Ticks left until the action lands.
    pub open spec fn spec_arrival(self) -> int {
        self.progress.distance - self.progress.traveled
    }

    /// Bits of the action that reach its destination.
    pub open spec fn spec_at_target(self, paths: PathConfig) -> int {
        arrived(self.amount as int, self.progress.distance as int, paths)
    }

    /// Remaining ticks until arrival.
    pub fn arrival_in_ticks(&self) -> (r: u32)
        requires
            self.progress.wf(),
        ensures
            r == self.spec_arrival(),
    {
        self.progress.distance - self.progress.traveled
    }

    /// Number of bits that reach the destination base.
    pub fn amount_at_target(&self, config: &PathConfig) -> (r: u32)
        ensures
            r == self.spec_at_target(*config),
    {
        if self.progress.distance < config.grace_period {
            return self.amount;
        }
        let over: u64 = (self.progress.distance - config.grace_period) as u64;
        let rate: u64 = config.death_rate as u64;
        assert(rate * over <= 0xffff_ffff * 0xffff_ffffu64) by (nonlinear_arith)
            requires
                rate <= 0xffff_ffffu64,
                over <= 0xffff_ffffu64,
        ;
        let deaths: u64 = rate * over;
        if deaths > self.amount as u64 {
            return 0;
        }
        self.amount - deaths as u32
    }
}

/// Attrition never makes an action grow with distance, nor go negative: for a
/// fixed action, the bits arriving over a longer path are at most those
/// arriving over a shorter one, and at least zero.
pub proof fn lemma_attrition_monotone(amount: u32, d1: u32, d2: u32, paths: PathConfig)
    requires
        d1 <= d2,
    ensures
        0 <= arrived(amount as int, d2 as int, paths) <= arrived(amount as int, d1 as int, paths),
        arrived(amount as int, d1 as int, paths) <= amount,
{
    assert(paths.death_rate * (d1 - paths.grace_period) <= paths.death_rate * (d2 - paths.grace_period)) by (nonlinear_arith)
        requires
            d1 <= d2,
            paths.death_rate >= 0,
    ;
    if d1 >= paths.grace_period {
        assert(paths.death_rate * (d1 - paths.grace_period) >= 0) by (nonlinear_arith)
            requires
                d1 >= paths.grace_period,
                paths.death_rate >= 0,
        ;
    }
    if d2 >= paths.grace_period {
        assert(paths.death_rate * (d2 - paths.grace_period) >= 0) by (nonlinear_arith)
            requires
                d2 >= paths.grace_period,
                paths.death_rate >= 0,
        ;
    }
}

} // verus!

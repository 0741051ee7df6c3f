use vstd::prelude::*;
use crate::models::base_level::BaseLevel;
use crate::models::board_action::BoardAction;
use crate::models::game_config::GameConfig;
use crate::models::path_config::PathConfig;
use crate::models::position::Position;

verus! {

/// Squared Euclidean distance between two points.
pub open spec fn dist_sq(a: Position, b: Position) -> int {
    (b.x - a.x) * (b.x - a.x) + (b.y - a.y) * (b.y - a.y) + (b.z - a.z) * (b.z - a.z)
}

/// `r` is the square root of `n`, rounded down.
pub open spec fn is_floor_sqrt(r: int, n: int) -> bool {
    0 <= r && r * r <= n < (r + 1) * (r + 1)
}

/// The square root of `n`, rounded down.
pub open spec fn floor_sqrt(n: int) -> int {
    choose|r: int| is_floor_sqrt(r, n)
}

/// The rounded-down square root is unique.
pub proof fn lemma_floor_sqrt_unique(r1: int, r2: int, n: int)
    requires
        is_floor_sqrt(r1, n),
        is_floor_sqrt(r2, n),
    ensures
        r1 == r2,
{
    if r1 < r2 {
        assert((r1 + 1) * (r1 + 1) <= r2 * r2) by (nonlinear_arith)
            requires
                0 <= r1 < r2,
        ;
    } else if r2 < r1 {
        assert((r2 + 1) * (r2 + 1) <= r1 * r1) by (nonlinear_arith)
            requires
                0 <= r2 < r1,
        ;
    }
}

/// Integer square root of `n`, rounded down, by bisection.
fn isqrt(n: u128) -> (r: u64)
    requires
        n < 0x4_0000_0000_0000_0000u128,
    ensures
        is_floor_sqrt(r as int, n as int),
        r == floor_sqrt(n as int),
{
    let mut lo: u128 = 0;
    let mut hi: u128 = 0x2_0000_0000;
    assert(hi * hi == 0x4_0000_0000_0000_0000u128);
    while lo + 1 < hi
        invariant
            lo < hi <= 0x2_0000_0000,
            lo * lo <= n < hi * hi,
        decreases hi - lo,
    {
        let mid: u128 = lo + (hi - lo) / 2;
        assert(mid * mid <= 0x4_0000_0000_0000_0000u128) by (nonlinear_arith)
            requires
                mid <= 0x2_0000_0000,
        ;
        if mid * mid <= n {
            lo = mid;
        } else {
            hi = mid;
        }
    }
    assert(is_floor_sqrt(lo as int, n as int));
    proof {
        lemma_floor_sqrt_unique(lo as int, floor_sqrt(n as int), n as int);
    }
    lo as u64
}

/// Net bits that the actions landed by `ticks` bring to a base of `player`:
/// own arrivals add, all others subtract.
pub open spec fn arrivals(player: u32, ticks: int, paths: PathConfig, acts: Seq<BoardAction>) -> int
    decreases acts.len(),
{
    if acts.len() == 0 {
        0
    } else {
        let a = acts.last();
        let rest = arrivals(player, ticks, paths, acts.drop_last());
        if a.spec_arrival() <= ticks {
            if a.player == player {
                rest + a.spec_at_target(paths)
            } else {
                rest - a.spec_at_target(paths)
            }
        } else {
            rest
        }
    }
}

/// Each action moves a base's projection by at most `u32::MAX` bits.
pub proof fn lemma_arrivals_bound(player: u32, ticks: int, paths: PathConfig, acts: Seq<BoardAction>)
    ensures
        -(acts.len() * 0xffff_ffff) <= arrivals(player, ticks, paths, acts) <= acts.len() * 0xffff_ffff,
    decreases acts.len(),
{
    if acts.len() > 0 {
        let a = acts.last();
        lemma_arrivals_bound(player, ticks, paths, acts.drop_last());
        crate::models::board_action::lemma_attrition_monotone(a.amount, 0, a.progress.distance, paths);
        assert(0 <= a.spec_at_target(paths) <= 0xffff_ffff);
    }
}

/// Projecting a base zero ticks ahead, with no action in flight, gives its
/// current population exactly.
pub proof fn lemma_projection_now(base: Base, config: GameConfig)
    ensures
        base.projection(0, config, seq![]) == base.population,
{
}

/// Every action of the sequence carries a consistent progress record.
pub open spec fn actions_wf(acts: Seq<BoardAction>) -> bool {
    forall|i: int| 0 <= i < acts.len() ==> (#[trigger] acts[i]).progress.wf()
}

/// A base on the board.
#[derive(Debug, PartialEq, Eq, Structural, PartialOrd, Ord, Clone, Copy)]
pub struct Base {
    /// position of the base
    pub position: Position,
    /// uid of the base; 0 is the neutral base
    pub uid: u32,
    /// owner of the base
    pub player: u32,
    /// current population of the base
    pub population: u32,
    /// level of the base, an index into the configured levels
    pub level: u32,
    /// number of units required to upgrade
    pub units_until_upgrade: u32,
}

impl Default for Base {
    fn default() -> (r: Self)
        ensures
            r.position == (Position { x: 0, y: 0, z: 0 }),
            r.uid == 0 && r.player == 0 && r.population == 0,
            r.level == 0 && r.units_until_upgrade == 0,
    {
        Base {
            position: Position::default(),
            uid: 0,
            player: 0,
            population: 0,
            level: 0,
            units_until_upgrade: 0,
        }
    }
}

impl Base {
    /// The base's level is one that the configuration defines.
    pub open spec fn level_wf(self, config: GameConfig) -> bool {
        self.level < config.base_levels@.len()
    }

    /// The constants of the base's level.
    pub open spec fn level_of(self, config: GameConfig) -> BaseLevel {
        config.base_levels@[self.level as int]
    }

    /// Signed population of the base after `ticks` ticks: passive growth (none
    /// for the neutral base) plus the net effect of every action landed by then.
    pub open spec fn projection(self, ticks: int, config: GameConfig, acts: Seq<BoardAction>) -> int {
        self.population + (if self.uid != 0 {
            ticks * self.level_of(config).spawn_rate
        } else {
            0
        }) + arrivals(self.player, ticks, config.paths, acts)
    }

    /// Distance to `other`, rounded down.
    pub open spec fn spec_distance(self, other: Base) -> int {
        floor_sqrt(dist_sq(self.position, other.position))
    }

    /// Bits this base must send to conquer `target`: one more than the
    /// magnitude of the target's projection at arrival, plus the attrition
    /// over the distance beyond the grace period.
    pub open spec fn spec_required(self, target: Base, config: GameConfig, acts: Seq<BoardAction>) -> int {
        let d = self.spec_distance(target);
        let p = target.projection(d, config, acts);
        (if p < 0 { -p } else { p }) + 1 + (if d > config.paths.grace_period {
            (d - config.paths.grace_period) * config.paths.death_rate
        } else {
            0
        })
    }

    /// Signed population after `ticks` ticks; negative means the base is overrun.
    pub fn raw_population_in_n_ticks(&self, ticks: u64, config: &GameConfig, attacks: &Vec<BoardAction>) -> (r: i128)
        requires
            self.level_wf(*config),
            actions_wf(attacks@),
        ensures
            r == self.projection(ticks as int, *config, attacks@),
    {
        let mut population_in_future: i128 = self.population as i128;
        if self.uid != 0 {
            let rate: u32 = config.base_levels[self.level as usize].spawn_rate;
            assert(0 <= ticks * rate <= 0xffff_ffff_ffff_ffff * 0xffff_ffffu128) by (nonlinear_arith)
                requires
                    ticks <= 0xffff_ffff_ffff_ffffu64,
                    rate <= 0xffff_ffffu32,
            ;
            population_in_future = population_in_future + ticks as i128 * rate as i128;
        }
        let ghost start = population_in_future;
        let mut i: usize = 0;
        while i < attacks.len()
            invariant
                i <= attacks.len(),
                actions_wf(attacks@),
                0 <= start <= 0xffff_ffff + 0xffff_ffff_ffff_ffff * 0xffff_ffffu128,
                start == self.population + (if self.uid != 0 {
                    ticks * self.level_of(*config).spawn_rate
                } else {
                    0
                }),
                population_in_future == start + arrivals(self.player, ticks as int, config.paths, attacks@.take(i as int)),
            decreases attacks.len() - i,
        {
            let attack = &attacks[i];
            proof {
                lemma_arrivals_bound(self.player, ticks as int, config.paths, attacks@.take(i as int));
                assert(attacks@.take(i as int + 1).drop_last() =~= attacks@.take(i as int));
                assert(i * 0xffff_ffff <= 0xffff_ffff_ffff_ffff * 0xffff_ffffu128) by (nonlinear_arith)
                    requires
                        i <= 0xffff_ffff_ffff_ffffu64,
                ;
            }
            assert(attack.progress.wf());
            if attack.arrival_in_ticks() as u64 <= ticks {
                let val_on_target: u32 = attack.amount_at_target(&config.paths);
                if attack.player == self.player {
                    population_in_future = population_in_future + val_on_target as i128;
                } else {
                    population_in_future = population_in_future - val_on_target as i128;
                }
            }
            i = i + 1;
        }
        assert(attacks@.take(attacks.len() as int) =~= attacks@);
        population_in_future
    }

    /// Magnitude of the projected population after `ticks` ticks.
    pub fn population_in_n_ticks(&self, ticks: u32, config: &GameConfig, attacks: &Vec<BoardAction>) -> (r: u32)
        requires
            self.level_wf(*config),
            actions_wf(attacks@),
            -0xffff_ffff <= self.projection(ticks as int, *config, attacks@) <= 0xffff_ffff,
        ensures
            r as int == if self.projection(ticks as int, *config, attacks@) < 0 {
                -self.projection(ticks as int, *config, attacks@)
            } else {
                self.projection(ticks as int, *config, attacks@)
            },
    {
        let p = self.raw_population_in_n_ticks(ticks as u64, config, attacks);
        if p < 0 {
            (-p) as u32
        } else {
            p as u32
        }
    }

    /// Whether the projected population after `ticks` ticks is negative.
    pub fn will_die_within_in_n_ticks(&self, ticks: u32, config: &GameConfig, attacks: &Vec<BoardAction>) -> (r: bool)
        requires
            self.level_wf(*config),
            actions_wf(attacks@),
        ensures
            r == (self.projection(ticks as int, *config, attacks@) < 0),
    {
        self.raw_population_in_n_ticks(ticks as u64, config, attacks) < 0
    }

    /// Distance to `base`, rounded down, over the full range of positions.
    pub fn distance_between(&self, base: &Base) -> (r: u64)
        ensures
            r == self.spec_distance(*base),
            is_floor_sqrt(r as int, dist_sq(self.position, base.position)),
            r < 0x2_0000_0000,
    {
        let dx: i128 = base.position.x as i128 - self.position.x as i128;
        let dy: i128 = base.position.y as i128 - self.position.y as i128;
        let dz: i128 = base.position.z as i128 - self.position.z as i128;
        assert(0 <= dx * dx <= 0x1_0000_0000 * 0x1_0000_0000) by (nonlinear_arith)
            requires
                -0x1_0000_0000 <= dx <= 0x1_0000_0000,
        ;
        assert(0 <= dy * dy <= 0x1_0000_0000 * 0x1_0000_0000) by (nonlinear_arith)
            requires
                -0x1_0000_0000 <= dy <= 0x1_0000_0000,
        ;
        assert(0 <= dz * dz <= 0x1_0000_0000 * 0x1_0000_0000) by (nonlinear_arith)
            requires
                -0x1_0000_0000 <= dz <= 0x1_0000_0000,
        ;
        let sq: i128 = dx * dx + dy * dy + dz * dz;
        let r = isqrt(sq as u128);
        proof {
            let n = sq as int;
            assert(is_floor_sqrt(r as int, n));
            assert(r < 0x2_0000_0000) by (nonlinear_arith)
                requires
                    r * r <= n,
                    n < 0x4_0000_0000_0000_0000,
                    r >= 0,
            ;
        }
        r
    }

    /// Distance to `base`, rounded down.
    pub fn distance_to(&self, base: &Base) -> (r: u32)
        requires
            self.spec_distance(*base) <= u32::MAX,
        ensures
            r == self.spec_distance(*base),
            is_floor_sqrt(r as int, dist_sq(self.position, base.position)),
    {
        self.distance_between(base) as u32
    }

    /// Bits needed to conquer `target_base`, over the full range of inputs.
    pub fn required_bits(&self, target_base: &Base, game_config: &GameConfig, attacks: &Vec<BoardAction>) -> (r: u128)
        requires
            target_base.level_wf(*game_config),
            actions_wf(attacks@),
        ensures
            r == self.spec_required(*target_base, *game_config, attacks@),
            r < 0x4_0000_0000_0000_0000_0000_0000u128,
    {
        let d: u64 = self.distance_between(target_base);
        let p: i128 = target_base.raw_population_in_n_ticks(d, game_config, attacks);
        let n_attacks: usize = attacks.len();
        proof {
            let acts = attacks@;
            lemma_arrivals_bound(target_base.player, d as int, game_config.paths, acts);
            let rate = target_base.level_of(*game_config).spawn_rate;
            assert(0 <= d * rate <= 0x2_0000_0000 * 0xffff_ffffu128) by (nonlinear_arith)
                requires
                    d < 0x2_0000_0000,
                    rate <= 0xffff_ffffu32,
            ;
            assert(acts.len() * 0xffff_ffff <= 0xffff_ffff_ffff_ffff * 0xffff_ffffu128) by (nonlinear_arith)
                requires
                    acts.len() == n_attacks,
                    n_attacks <= 0xffff_ffff_ffff_ffffu64,
            ;
        }
        let magnitude: u128 = if p < 0 {
            (-p) as u128
        } else {
            p as u128
        };
        let mut requirement: u128 = magnitude + 1;
        if d > game_config.paths.grace_period as u64 {
            let over: u64 = d - game_config.paths.grace_period as u64;
            assert(0 <= over * game_config.paths.death_rate <= 0x2_0000_0000 * 0xffff_ffffu128) by (nonlinear_arith)
                requires
                    over < 0x2_0000_0000,
                    game_config.paths.death_rate <= 0xffff_ffffu32,
            ;
            requirement = requirement + over as u128 * game_config.paths.death_rate as u128;
        }
        requirement
    }

    /// Bits needed to conquer `target_base`.
    pub fn required_to_defeat(&self, target_base: &Base, game_config: &GameConfig, attacks: &Vec<BoardAction>) -> (r: u32)
        requires
            target_base.level_wf(*game_config),
            actions_wf(attacks@),
            self.spec_required(*target_base, *game_config, attacks@) <= u32::MAX,
        ensures
            r == self.spec_required(*target_base, *game_config, attacks@),
    {
        self.required_bits(target_base, game_config, attacks) as u32
    }
}

} // verus!

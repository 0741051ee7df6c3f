use vstd::prelude::*;
use crate::models::base::{actions_wf, Base};
use crate::models::board_action::BoardAction;
use crate::models::game_config::GameConfig;
use crate::models::game_state::GameState;
use crate::models::player_action::PlayerAction;
use crate::models::target::Target;

verus! {

/// The bases of `bases` not owned by `player`, in board order.
pub open spec fn opponents_of(bases: Seq<Base>, player: u32) -> Seq<Base>
    decreases bases.len(),
{
    if bases.len() == 0 {
        seq![]
    } else {
        let rest = opponents_of(bases.drop_last(), player);
        if bases.last().player != player {
            rest.push(bases.last())
        } else {
            rest
        }
    }
}

/// Attacking with `req` bits leaves the attacker at least a quarter of its
/// level's capacity, rounded down.
pub open spec fn feasible(attacker: Base, req: int, config: GameConfig) -> bool {
    req + attacker.level_of(config).max_population as int / 4 < attacker.population
}

/// A feasible candidate replaces the running best: it must be strictly
/// closer, and no dearer unless the attacker is the neutral base and the
/// candidate lies within the grace period of it (a tunable policy).
pub open spec fn preferred(attacker: Base, cand: Base, req: int, best: Base, best_req: int, config: GameConfig) -> bool {
    attacker.spec_distance(cand) < attacker.spec_distance(best) && (req <= best_req || (attacker.uid == 0
        && cand.spec_distance(attacker) < config.paths.grace_period))
}

/// The target chosen among `opps`, scanned in order, with the bits it needs.
pub open spec fn select(attacker: Base, opps: Seq<Base>, config: GameConfig, acts: Seq<BoardAction>) -> Option<(Base, int)>
    decreases opps.len(),
{
    if opps.len() == 0 {
        None
    } else {
        let best = select(attacker, opps.drop_last(), config, acts);
        let o = opps.last();
        let req = attacker.spec_required(o, config, acts);
        if feasible(attacker, req, config) {
            match best {
                None => Some((o, req)),
                Some(b) => if preferred(attacker, o, req, b.0, b.1, config) {
                    Some((o, req))
                } else {
                    best
                },
            }
        } else {
            best
        }
    }
}

/// The target and its cost, as a pair.
pub open spec fn target_view(t: Option<Target>) -> Option<(Base, int)> {
    match t {
        None => None,
        Some(t) => Some((t.base, t.required_bits as int)),
    }
}

/// What the controlled base `base` does this tick: attack its target unless
/// it would itself be overrun before the attack lands; otherwise send its
/// excess over capacity minus one into its upgrade pool, if any.
pub open spec fn planned_action(state: GameState, base: Base) -> Option<PlayerAction> {
    let opps = opponents_of(state.bases@, state.game.player);
    let max = base.level_of(state.config).max_population;
    let attack = match select(base, opps, state.config, state.actions@) {
        Some(t) => if base.projection(base.spec_distance(t.0), state.config, state.actions@) >= 0 {
            Some(PlayerAction { src: base.uid, dest: t.0.uid, amount: (t.1 + 3) as u64 })
        } else {
            None
        },
        None => None,
    };
    if attack is Some {
        attack
    } else if base.population > max - 1 {
        Some(PlayerAction { src: base.uid, dest: base.uid, amount: (base.population - (max - 1)) as u64 })
    } else {
        None
    }
}

/// The actions of the controlled bases among `bases`, in board order.
pub open spec fn plan(state: GameState, bases: Seq<Base>) -> Seq<PlayerAction>
    decreases bases.len(),
{
    if bases.len() == 0 {
        seq![]
    } else {
        let rest = plan(state, bases.drop_last());
        let b = bases.last();
        if b.player == state.game.player {
            match planned_action(state, b) {
                Some(a) => rest.push(a),
                None => rest,
            }
        } else {
            rest
        }
    }
}

/// Every opponent is a base of the board, owned by someone else.
pub proof fn lemma_opponents_from_board(bases: Seq<Base>, player: u32)
    ensures
        forall|j: int|
            0 <= j < opponents_of(bases, player).len() ==> bases.contains(#[trigger] opponents_of(bases, player)[j])
                && opponents_of(bases, player)[j].player != player,
    decreases bases.len(),
{
    if bases.len() > 0 {
        lemma_opponents_from_board(bases.drop_last(), player);
        let rest = opponents_of(bases.drop_last(), player);
        assert forall|j: int| 0 <= j < rest.len() implies bases.contains(rest[j]) by {
            let k = choose|k: int| 0 <= k < bases.drop_last().len() && bases.drop_last()[k] == rest[j];
            assert(bases[k] == rest[j]);
        }
        assert(bases[bases.len() - 1] == bases.last());
    }
}

/// A target is selected iff some opponent is feasible; the selected one is an
/// opponent, costs exactly the bits it requires, and is feasible.
pub proof fn lemma_selection_feasible(attacker: Base, opps: Seq<Base>, config: GameConfig, acts: Seq<BoardAction>)
    ensures
        select(attacker, opps, config, acts) is None <==> forall|j: int|
            0 <= j < opps.len() ==> !feasible(attacker, attacker.spec_required(#[trigger] opps[j], config, acts), config),
        select(attacker, opps, config, acts) is Some ==> {
            let t = select(attacker, opps, config, acts)->Some_0;
            opps.contains(t.0) && t.1 == attacker.spec_required(t.0, config, acts) && feasible(attacker, t.1, config)
        },
    decreases opps.len(),
{
    if opps.len() > 0 {
        let rest = opps.drop_last();
        lemma_selection_feasible(attacker, rest, config, acts);
        assert(opps[opps.len() - 1] == opps.last());
        assert forall|j: int| 0 <= j < rest.len() implies rest[j] == opps[j] by {}
        if let Some(t) = select(attacker, rest, config, acts) {
            let k = choose|k: int| 0 <= k < rest.len() && rest[k] == t.0;
            assert(opps[k] == t.0);
        }
        if select(attacker, opps, config, acts) is None {
            assert forall|j: int| 0 <= j < opps.len() implies !feasible(
                attacker,
                attacker.spec_required(#[trigger] opps[j], config, acts),
                config,
            ) by {
                if j < rest.len() {
                    assert(rest[j] == opps[j]);
                }
            }
        }
    }
}

/// Every action of `plan(state, bases)` comes from a distinct controlled base
/// of `bases`, whose uid is its source.
proof fn lemma_plan_sources(state: GameState, bases: Seq<Base>)
    requires
        forall|i: int, j: int| 0 <= i < bases.len() && 0 <= j < bases.len() && i != j ==> bases[i].uid != bases[j].uid,
    ensures
        forall|j: int|
            0 <= j < plan(state, bases).len() ==> exists|i: int|
                0 <= i < bases.len() && bases[i].player == state.game.player && bases[i].uid == (
                #[trigger] plan(state, bases)[j]).src,
        forall|j: int, k: int|
            0 <= j < plan(state, bases).len() && 0 <= k < plan(state, bases).len() && j != k ==> plan(state, bases)[j].src
                != plan(state, bases)[k].src,
    decreases bases.len(),
{
    if bases.len() > 0 {
        let rest = bases.drop_last();
        let n = bases.len() - 1;
        lemma_plan_sources(state, rest);
        let prev = plan(state, rest);
        let out = plan(state, bases);
        assert(bases[n] == bases.last());
        assert forall|j: int| 0 <= j < prev.len() implies exists|i: int|
            0 <= i < n && bases[i].player == state.game.player && bases[i].uid == (#[trigger] prev[j]).src by {
            let i = choose|i: int|
                0 <= i < rest.len() && rest[i].player == state.game.player && rest[i].uid == prev[j].src;
            assert(bases[i] == rest[i]);
        }
        assert forall|j: int| 0 <= j < out.len() implies exists|i: int|
            0 <= i < bases.len() && bases[i].player == state.game.player && bases[i].uid == (#[trigger] out[j]).src by {
            if j < prev.len() {
                assert(out[j] == prev[j]);
                let i = choose|i: int| 0 <= i < n && bases[i].player == state.game.player && bases[i].uid == prev[j].src;
            } else {
                assert(bases[n].uid == out[j].src);
            }
        }
        assert forall|j: int, k: int| 0 <= j < out.len() && 0 <= k < out.len() && j != k implies out[j].src
            != out[k].src by {
            if j < prev.len() && k < prev.len() {
                assert(out[j] == prev[j] && out[k] == prev[k]);
            } else if j < prev.len() {
                assert(out[j] == prev[j]);
                assert(out[k].src == bases[n].uid);
                let i = choose|i: int| 0 <= i < n && bases[i].player == state.game.player && bases[i].uid == prev[j].src;
            } else if k < prev.len() {
                assert(out[k] == prev[k]);
                assert(out[j].src == bases[n].uid);
                let i = choose|i: int| 0 <= i < n && bases[i].player == state.game.player && bases[i].uid == prev[k].src;
            }
        }
    }
}

/// On a board whose uids are distinct, the plan holds at most one action per
/// source base, and each source is a base of the controlled player.
pub proof fn lemma_at_most_one_action(state: GameState)
    requires
        state.uids_distinct(),
    ensures
        forall|j: int, k: int|
            0 <= j < plan(state, state.bases@).len() && 0 <= k < plan(state, state.bases@).len() && j != k
                ==> plan(state, state.bases@)[j].src != plan(state, state.bases@)[k].src,
        forall|j: int|
            0 <= j < plan(state, state.bases@).len() ==> exists|i: int|
                0 <= i < state.bases@.len() && state.bases@[i].player == state.game.player && state.bases@[i].uid == (
                #[trigger] plan(state, state.bases@)[j]).src,
{
    lemma_plan_sources(state, state.bases@);
}

/// A controlled base with no feasible target upgrades exactly its excess over
/// capacity minus one, and does nothing when it holds no such excess.
pub proof fn lemma_upgrade_threshold(state: GameState, base: Base)
    requires
        forall|j: int|
            0 <= j < opponents_of(state.bases@, state.game.player).len() ==> !feasible(
                base,
                base.spec_required(#[trigger] opponents_of(state.bases@, state.game.player)[j], state.config, state.actions@),
                state.config,
            ),
    ensures
        base.population <= base.level_of(state.config).max_population - 1 ==> planned_action(state, base) is None,
        base.population > base.level_of(state.config).max_population - 1 ==> (planned_action(state, base) matches Some(a)
            && a.src == base.uid && a.dest == base.uid && a.amount == base.population - (base.level_of(
            state.config,
        ).max_population - 1)),
{
    lemma_selection_feasible(base, opponents_of(state.bases@, state.game.player), state.config, state.actions@);
}

/// Every attack (an action whose source and destination differ) goes to an
/// opponent, from a base that survives until it lands, with exactly the bits
/// that opponent requires plus three.
pub proof fn lemma_attack_buffer(state: GameState, base: Base)
    ensures
        planned_action(state, base) is Some && planned_action(state, base)->Some_0.dest != planned_action(
            state,
            base,
        )->Some_0.src ==> exists|o: Base|
            opponents_of(state.bases@, state.game.player).contains(o) && o.uid == planned_action(
                state,
                base,
            )->Some_0.dest && planned_action(state, base)->Some_0.amount == base.spec_required(o, state.config, state.actions@) + 3 && base.projection(
                base.spec_distance(o),
                state.config,
                state.actions@,
            ) >= 0,
{
    let opps = opponents_of(state.bases@, state.game.player);
    lemma_selection_feasible(base, opps, state.config, state.actions@);
    if let Some(t) = select(base, opps, state.config, state.actions@) {
        if base.projection(base.spec_distance(t.0), state.config, state.actions@) >= 0 {
            assert(opps.contains(t.0));
        }
    }
}

/// Picks the target of `attacker` among `opponents`.
fn select_target(attacker: &Base, opponents: &Vec<Base>, config: &GameConfig, actions: &Vec<BoardAction>) -> (r: Option<Target>)
    requires
        attacker.level_wf(*config),
        forall|j: int| 0 <= j < opponents@.len() ==> (#[trigger] opponents@[j]).level_wf(*config),
        actions_wf(actions@),
    ensures
        target_view(r) == select(*attacker, opponents@, *config, actions@),
{
    let mut target: Option<Target> = None;
    let mut best_distance: u64 = 0;
    let reserve: u32 = config.base_levels[attacker.level as usize].max_population / 4;
    let mut i: usize = 0;
    while i < opponents.len()
        invariant
            i <= opponents@.len(),
            attacker.level_wf(*config),
            forall|j: int| 0 <= j < opponents@.len() ==> (#[trigger] opponents@[j]).level_wf(*config),
            actions_wf(actions@),
            reserve == attacker.level_of(*config).max_population as int / 4,
            target_view(target) == select(*attacker, opponents@.take(i as int), *config, actions@),
            target matches Some(t) ==> best_distance == attacker.spec_distance(t.base),
        decreases opponents@.len() - i,
    {
        let opponent = &opponents[i];
        proof {
            assert(opponents@.take(i as int + 1).drop_last() =~= opponents@.take(i as int));
            assert(opponents@.take(i as int + 1).last() == opponents@[i as int]);
        }
        let required: u128 = attacker.required_bits(opponent, config, actions);
        if required + (reserve as u128) < attacker.population as u128 {
            let d: u64 = attacker.distance_between(opponent);
            match target {
                None => {
                    target = Some(Target::new(*opponent, required as u32));
                    best_distance = d;
                },
                Some(best) => {
                    let is_closer: bool = d < best_distance;
                    if is_closer && ((required <= best.required_bits as u128) || (attacker.uid == 0
                        && opponent.distance_between(attacker) < config.paths.grace_period as u64)) {
                        target = Some(Target::new(*opponent, required as u32));
                        best_distance = d;
                    }
                },
            }
        }
        i = i + 1;
    }
    assert(opponents@.take(opponents@.len() as int) =~= opponents@);
    target
}

/// The action of the controlled base `base`, given the opponents of the board.
fn plan_base(game_state: &GameState, opponents: &Vec<Base>, base: &Base) -> (r: Option<PlayerAction>)
    requires
        game_state.wf(),
        base.level_wf(game_state.config),
        opponents@ == opponents_of(game_state.bases@, game_state.game.player),
    ensures
        r == planned_action(*game_state, *base),
{
    proof {
        lemma_opponents_from_board(game_state.bases@, game_state.game.player);
        assert forall|j: int| 0 <= j < opponents@.len() implies (#[trigger] opponents@[j]).level_wf(game_state.config) by {
            let k = choose|k: int| 0 <= k < game_state.bases@.len() && game_state.bases@[k] == opponents@[j];
            assert(game_state.bases@[k].level_wf(game_state.config));
        }
    }
    let target = select_target(base, opponents, &game_state.config, &game_state.actions);
    if let Some(t) = target {
        let d: u64 = base.distance_between(&t.base);
        if base.raw_population_in_n_ticks(d, &game_state.config, &game_state.actions) >= 0 {
            return Some(PlayerAction { src: base.uid, dest: t.base.uid, amount: t.required_bits as u64 + 3 });
        }
    }
    let max: u32 = game_state.config.base_levels[base.level as usize].max_population;
    if base.population as u64 + 1 > max as u64 {
        Some(PlayerAction { src: base.uid, dest: base.uid, amount: base.population as u64 + 1 - max as u64 })
    } else {
        None
    }
}

/// Plans this tick's actions of the controlled player: for each of its bases,
/// in board order, at most one attack or upgrade.
pub fn decide(game_state: GameState) -> (r: Vec<PlayerAction>)
    requires
        game_state.wf(),
    ensures
        r@ == plan(game_state, game_state.bases@),
{
    let player: u32 = game_state.game.player;
    let mut opponents: Vec<Base> = Vec::new();
    let mut i: usize = 0;
    while i < game_state.bases.len()
        invariant
            i <= game_state.bases@.len(),
            player == game_state.game.player,
            opponents@ == opponents_of(game_state.bases@.take(i as int), player),
        decreases game_state.bases@.len() - i,
    {
        proof {
            assert(game_state.bases@.take(i as int + 1).drop_last() =~= game_state.bases@.take(i as int));
        }
        if game_state.bases[i].player != player {
            opponents.push(game_state.bases[i]);
        }
        i = i + 1;
    }
    assert(game_state.bases@.take(game_state.bases@.len() as int) =~= game_state.bases@);
    let mut attacks: Vec<PlayerAction> = Vec::new();
    let mut k: usize = 0;
    while k < game_state.bases.len()
        invariant
            k <= game_state.bases@.len(),
            game_state.wf(),
            player == game_state.game.player,
            opponents@ == opponents_of(game_state.bases@, player),
            attacks@ == plan(game_state, game_state.bases@.take(k as int)),
        decreases game_state.bases@.len() - k,
    {
        let base = &game_state.bases[k];
        proof {
            assert(game_state.bases@.take(k as int + 1).drop_last() =~= game_state.bases@.take(k as int));
            assert(game_state.bases@[k as int].level_wf(game_state.config));
        }
        if base.player == player {
            if let Some(action) = plan_base(&game_state, &opponents, base) {
                attacks.push(action);
            }
        }
        k = k + 1;
    }
    assert(game_state.bases@.take(game_state.bases@.len() as int) =~= game_state.bases@);
    attacks
}

} // verus!

use vstd::prelude::*;
use crate::models::base::{actions_wf, Base};
use crate::models::board_action::BoardAction;
use crate::models::game::Game;
use crate::models::game_config::GameConfig;
use crate::models::position::Position;

verus! {

/// A snapshot of the board for one tick.
#[derive(Debug, PartialEq, Eq, Clone)]
pub struct GameState {
    pub game: Game,
    pub bases: Vec<Base>,
    pub actions: Vec<BoardAction>,
    pub config: GameConfig,
}

impl GameState {
    /// Every base's level is a configured one, and every action's progress is consistent.
    pub open spec fn wf(self) -> bool {
        &&& forall|i: int| 0 <= i < self.bases@.len() ==> (#[trigger] self.bases@[i]).level_wf(self.config)
        &&& actions_wf(self.actions@)
    }

    /// No two bases share a uid.
    pub open spec fn uids_distinct(self) -> bool {
        forall|i: int, j: int|
            0 <= i < self.bases@.len() && 0 <= j < self.bases@.len() && i != j
                ==> self.bases@[i].uid != self.bases@[j].uid
    }
}

impl Default for GameState {
    /// A board that holds the neutral base alone, controlled by player 0,
    /// under the default configuration.
    fn default() -> (r: Self)
        ensures
            r.game.player == 0,
            r.bases@ == seq![Base {
                position: Position { x: 0, y: 0, z: 0 },
                uid: 0,
                player: 0,
                population: 0,
                level: 0,
                units_until_upgrade: 0,
            }],
            r.actions@.len() == 0,
            r.config.base_levels@.len() == 1,
            r.config.base_levels@[0].max_population == 0,
            r.wf(),
    {
        GameState {
            game: Game::default(),
            bases: vec![Base::default()],
            actions: Vec::new(),
            config: GameConfig::default(),
        }
    }
}

} // verus!

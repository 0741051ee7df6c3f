use vstd::prelude::*;
use crate::models::base_level::BaseLevel;
use crate::models::path_config::PathConfig;

verus! {

/// The static rules of a game: its base levels, in order, and its path constants.
#[derive(Debug, PartialEq, Eq, Clone)]
pub struct GameConfig {
    pub base_levels: Vec<BaseLevel>,
    pub paths: PathConfig,
}

impl Default for GameConfig {
    /// A single level with all constants zero, and paths without attrition.
    fn default() -> (r: Self)
        ensures
            r.base_levels@ == seq![BaseLevel { max_population: 0, upgrade_cost: 0, spawn_rate: 0 }],
            r.paths == (PathConfig { grace_period: 0, death_rate: 0 }),
    {
        GameConfig { base_levels: vec![BaseLevel::default()], paths: PathConfig::default() }
    }
}

} // verus!

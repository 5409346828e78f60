use vstd::prelude::*;
use crate::components::{PlantType, Tool};
use crate::constants::{SPAWN_INTERVAL_MS, STARTING_SUN};
use crate::timer::{Timer, TimerMode};

verus! {

/// The player's economy and tool selection.
#[derive(Clone, Copy, Debug, PartialEq, Eq, Structural)]
pub struct GameState {
    pub sun: u32,
    pub selected_tool: Tool,
}

impl GameState {
    pub open spec fn initial() -> GameState {
        GameState { sun: STARTING_SUN, selected_tool: Tool::Plant(PlantType::Peashooter) }
    }

    /// Record the tool the player picked.
    pub fn select_tool(&mut self, tool: Tool)
        ensures
            *final(self) == (GameState { selected_tool: tool, ..*old(self) }),
    {
        self.selected_tool = tool;
    }
}

impl Default for GameState {
    fn default() -> (r: GameState)
        ensures
            r == GameState::initial(),
    {
        GameState { sun: STARTING_SUN, selected_tool: Tool::Plant(PlantType::Peashooter) }
    }
}

/// The repeating timer that paces adversary arrivals.
#[derive(Clone, Copy, Debug, PartialEq, Eq, Structural)]
pub struct SpawnTimer(pub Timer);

impl SpawnTimer {
    pub open spec fn wf(self) -> bool {
        self.0.wf() && self.0.mode == TimerMode::Repeating && self.0.duration_ms
            == SPAWN_INTERVAL_MS
    }

    pub fn new() -> (r: SpawnTimer)
        ensures
            r.0 == Timer::fresh(SPAWN_INTERVAL_MS, TimerMode::Repeating),
            r.wf(),
    {
        SpawnTimer(Timer::new(SPAWN_INTERVAL_MS, TimerMode::Repeating))
    }
}

} // verus!

//! The immutable configuration snapshot the engine receives at import time.

use vstd::prelude::*;

use super::LocalSearchMode;

verus! {

pub struct LocalSearchConfig {
    pub random_seed: u32,
    pub best_known_value: i32,
    pub mode: LocalSearchMode,
    pub phase_sticky: bool,
    pub dbg_flips: bool,
}

impl LocalSearchConfig {
    /// The default configuration: WalkSAT mode, no phase stickiness, seed
    /// zero, no known value.
    pub fn new() -> (r: Self)
        ensures
            r.random_seed == 0,
            r.best_known_value == i32::MAX,
            r.mode == LocalSearchMode::WSAT,
            r.phase_sticky == false,
            r.dbg_flips == false,
    {
        LocalSearchConfig {
            random_seed: 0,
            best_known_value: i32::MAX,
            mode: LocalSearchMode::WSAT,
            phase_sticky: false,
            dbg_flips: false,
        }
    }

    pub fn mode(&self) -> (r: LocalSearchMode)
        ensures
            r == self.mode,
    {
        self.mode
    }

    pub fn phase_sticky(&self) -> (r: bool)
        ensures
            r == self.phase_sticky,
    {
        self.phase_sticky
    }

    pub fn dbg_flips(&self) -> (r: bool)
        ensures
            r == self.dbg_flips,
    {
        self.dbg_flips
    }

    pub fn random_seed(&self) -> (r: u32)
        ensures
            r == self.random_seed,
    {
        self.random_seed
    }

    pub fn best_known_value(&self) -> (r: i32)
        ensures
            r == self.best_known_value,
    {
        self.best_known_value
    }

    pub fn set_random_seed(&mut self, random_seed: u32)
        ensures
            *final(self) == (LocalSearchConfig { random_seed, ..*old(self) }),
    {
        self.random_seed = random_seed;
    }

    pub fn set_best_known_value(&mut self, best_known_value: i32)
        ensures
            *final(self) == (LocalSearchConfig { best_known_value, ..*old(self) }),
    {
        self.best_known_value = best_known_value;
    }

    /// Copies another configuration's strategy fields, keeping the known
    /// value.
    pub fn set_config(&mut self, cfg: &LocalSearchConfig)
        ensures
            final(self).mode == cfg.mode,
            final(self).random_seed == cfg.random_seed,
            final(self).phase_sticky == cfg.phase_sticky,
            final(self).dbg_flips == cfg.dbg_flips,
            final(self).best_known_value == old(self).best_known_value,
    {
        self.mode = cfg.mode;
        self.random_seed = cfg.random_seed;
        self.phase_sticky = cfg.phase_sticky;
        self.dbg_flips = cfg.dbg_flips;
    }
}

} // verus!

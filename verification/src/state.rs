//! The install manifest under the name state.toml, as older systems carry it. It is loaded
//! from /etc alone.
use vstd::prelude::*;
use vstd::string::*;

use crate::config::{default_config, Config};

verus! {

pub const DEFAULT_PATH: &'static str = "/etc/raiden/state.toml";

pub const BOOT_MIRROR_PATH: &'static str = "/boot/raiden/state.toml";

#[derive(Debug)]
pub struct State {
    pub config: Config,
}

impl Default for State {
    fn default() -> (r: Self)
        ensures
            r.config@ == default_config(),
    {
        State { config: Config::default() }
    }
}

impl State {
    pub fn from_config(cfg: &Config) -> (r: Self)
        ensures
            r.config@ == cfg@,
    {
        State { config: cfg.copy() }
    }

    /// The paths to write, in order, and whether a failure to write one is an error: the
    /// one under /etc must succeed, the one on /boot is worth trying.
    pub fn save() -> (r: [(&'static str, bool); 2])
        ensures
            r@[0].0@ == DEFAULT_PATH@ && r@[0].1,
            r@[1].0@ == BOOT_MIRROR_PATH@ && !r@[1].1,
    {
        [(DEFAULT_PATH, true), (BOOT_MIRROR_PATH, false)]
    }
}

} // verus!

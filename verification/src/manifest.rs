//! The install manifest: the resolved configuration, written at install time. Operations
//! on the installed system take their configuration from it. The devices are resolved at
//! run time, so it holds no identifiers of disks.
//!
//! The copy on /boot is the canonical one: it can be reached from a livecd by mounting a
//! member's /boot alone. The copy under /etc mirrors it on the running system.
use vstd::prelude::*;
use vstd::string::*;

use crate::config::{default_config, Config};
use crate::text::opt_text;

verus! {

pub const DEFAULT_PATH: &'static str = "/etc/raiden/manifest.toml";

pub const BOOT_MIRROR_PATH: &'static str = "/boot/raiden/manifest.toml";

#[derive(Debug)]
pub struct Manifest {
    pub config: Config,
}

impl Default for Manifest {
    fn default() -> (r: Self)
        ensures
            r.config@ == default_config(),
    {
        Manifest { config: Config::default() }
    }
}

/// One copy to write: to a temporary file beside it first, then renamed over it, so that
/// no reader sees a part of it.
pub struct Save {
    pub path: String,
    pub tmp: String,
    /// Whether a failure to write it is an error. /boot may not be mounted yet.
    pub required: bool,
}

/// A copy to write.
pub open spec fn save_of(s: Save) -> (Seq<char>, Seq<char>, bool) {
    (s.path@, s.tmp@, s.required)
}

/// The copy that is loaded: that on /boot where it can be read, else that under /etc.
pub open spec fn loaded(boot: Option<Seq<char>>, etc: Option<Seq<char>>) -> Option<
    (Seq<char>, Seq<char>),
> {
    match boot {
        Some(text) => Some((BOOT_MIRROR_PATH@, text)),
        None => match etc {
            Some(text) => Some((DEFAULT_PATH@, text)),
            None => None,
        },
    }
}

impl Manifest {
    pub fn from_config(cfg: &Config) -> (r: Self)
        ensures
            r.config@ == cfg@,
    {
        Manifest { config: cfg.copy() }
    }

    /// The copies to write, in order: the one under /etc must succeed, the one on /boot
    /// is worth trying.
    pub fn save() -> (r: Vec<Save>)
        ensures
            r@.map_values(|s: Save| save_of(s)) == seq![
                (DEFAULT_PATH@, "/etc/raiden/manifest.toml.tmp"@, true),
                (BOOT_MIRROR_PATH@, "/boot/raiden/manifest.toml.tmp"@, false),
            ],
    {
        let mut v: Vec<Save> = Vec::new();
        v.push(
            Save {
                path: DEFAULT_PATH.to_owned(),
                tmp: "/etc/raiden/manifest.toml.tmp".to_owned(),
                required: true,
            },
        );
        v.push(
            Save {
                path: BOOT_MIRROR_PATH.to_owned(),
                tmp: "/boot/raiden/manifest.toml.tmp".to_owned(),
                required: false,
            },
        );
        v
    }

    /// The path and text of the copy to parse, given what can be read of either. None
    /// where there is no manifest.
    pub fn load(boot: Option<String>, etc: Option<String>) -> (r: Option<(&'static str, String)>)
        ensures
            (match r {
                Some((path, text)) => Some((path@, text@)),
                None => None,
            }) == loaded(opt_text(boot), opt_text(etc)),
    {
        match boot {
            Some(text) => Some((BOOT_MIRROR_PATH, text)),
            None => match etc {
                Some(text) => Some((DEFAULT_PATH, text)),
                None => None,
            },
        }
    }

    /// Whether there is a manifest, given whether either copy is there.
    pub fn present(boot: bool, etc: bool) -> (r: bool)
        ensures
            r == (boot || etc),
    {
        boot || etc
    }
}

/// What was saved is what is loaded: where both copies were written, and where only the
/// required one was and there is none on /boot.
pub proof fn a_saved_manifest_is_loaded(text: Seq<char>)
    ensures
        loaded(Some(text), Some(text)) == Some((BOOT_MIRROR_PATH@, text)),
        loaded(None, Some(text)) == Some((DEFAULT_PATH@, text)),
{
}

} // verus!

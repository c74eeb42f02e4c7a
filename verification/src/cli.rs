//! The command line as data: what the flags and subcommands say.
use vstd::prelude::*;

use crate::config::{disk_list, split_disks, Overrides, OverridesModel};
use crate::text::opt_text;

verus! {

pub struct Cli {
    pub global: Global,
    pub command: Command,
}

/// The flags that every command takes.
pub struct Global {
    /// Path to the config file.
    pub config: String,
    /// Print the commands that would run without executing them.
    pub dry_run: bool,
    /// Skip the destructive-operation confirmation.
    pub yes: bool,
    /// Resume an interrupted operation from its last checkpoint.
    pub resume: bool,
    /// Read the encryption password from this file instead of prompting.
    pub password_file: Option<String>,
    pub verbose: bool,
    /// Override raid.stack.
    pub stack: Option<String>,
    /// Override raid.level.
    pub level: Option<String>,
    /// Override disks.members (comma-separated).
    pub members: Option<String>,
    /// Override install.release.
    pub release: Option<String>,
}

pub enum Command {
    /// Generate a starter raiden.toml for this machine.
    Init(InitArgs),
    /// Run the full install pipeline.
    Install(InstallArgs),
    /// Rebuild specific disks (all layers by default, or only those named), in place
    /// or with new disks in their stead.
    Replace { disks: String, with: Option<String>, esp: bool, boot: bool, root: bool },
    /// Array health and read-error mapping.
    Status(StatusArgs),
    /// Start or check a scrub.
    Scrub { wait: bool },
    /// Assemble, unlock, and mount from a livecd.
    Rescue,
    /// Bring a degraded root online from the initramfs.
    Recover(RecoverArgs),
    /// Ensure the stack is open and mounted (or just /boot and the esp).
    Mount(MountArgs),
    /// Unmount, stop arrays, lock crypt.
    Close,
    /// Detach disks from the array.
    Remove { disks: String },
    /// Run the fsync-bound fileio benchmark on the array.
    Benchmark(BenchmarkArgs),
    /// Resync the /boot or esp mirrors.
    Sync(SyncArgs),
    /// Check the health of the installed system.
    Doctor(DoctorArgs),
    /// Inspect configuration.
    Config(ConfigCmd),
    /// List candidate disks and array members.
    Devices,
}

pub struct MountArgs {
    /// Mount only /boot and the esp (no crypt, no array, no password).
    pub boot: bool,
    /// Directory to mount under; / for the running system.
    pub at: String,
}

pub struct StatusArgs {
    /// Show only the files affected by unrecoverable read errors (md stacks).
    pub bad_files: bool,
}

pub struct BenchmarkArgs {
    /// Working-set size, eg. 2G.
    pub size: Option<String>,
    /// Passes per write mode.
    pub passes: Option<u32>,
    /// Random-write events per pass.
    pub rndwr_events: Option<u64>,
    /// Sequential-write events per pass.
    pub seqwr_events: Option<u64>,
    /// Output format: "text" or "json".
    pub format: String,
}

pub struct InitArgs {
    /// Where to write the config (default: the config path).
    pub output: Option<String>,
    /// Overwrite an existing config file.
    pub force: bool,
    /// Boot mode: "efi" or "bios".
    pub boot_mode: Option<String>,
    /// Accept the detected defaults without prompting.
    pub non_interactive: bool,
}

pub struct InstallArgs {
    /// Start from this phase.
    pub from: Option<String>,
    /// Run only this phase.
    pub only: Option<String>,
    /// List the install phases and exit.
    pub list_phases: bool,
}

pub struct RecoverArgs {
    /// Where the root is to be mounted.
    pub at: String,
}

pub struct DoctorArgs {
    /// Repair what can be repaired in place.
    pub fix: bool,
}

pub struct SyncArgs {
    pub target: SyncTarget,
}

/// Which mirrors to sync; `force` skips the verification of the source.
pub enum SyncTarget {
    Boot { force: bool },
    Efi { force: bool },
}

pub enum ConfigCmd {
    /// Print the resolved config and derived layout.
    Show,
    /// Validate the config without touching disks.
    Validate,
}

fn copied(o: &Option<String>) -> (r: Option<String>)
    ensures
        opt_text(r) == opt_text(*o),
{
    match o {
        Some(v) => Some(v.clone()),
        None => None,
    }
}

/// The overrides that the flags make.
pub fn overrides_from(g: &Global) -> (r: Overrides)
    ensures
        r@ == (OverridesModel {
            stack: opt_text(g.stack),
            level: opt_text(g.level),
            disks: match opt_text(g.members) {
                Some(s) => Some(disk_list(s)),
                None => None,
            },
            release: opt_text(g.release),
        }),
{
    Overrides {
        stack: copied(&g.stack),
        level: copied(&g.level),
        disks: match &g.members {
            Some(s) => Some(split_disks(s.as_str())),
            None => None,
        },
        release: copied(&g.release),
    }
}

impl SyncTarget {
    /// Whether the verification of the source is skipped.
    pub fn force(&self) -> (r: bool)
        ensures
            r == match *self {
                SyncTarget::Boot { force } => force,
                SyncTarget::Efi { force } => force,
            },
    {
        match self {
            SyncTarget::Boot { force } => *force,
            SyncTarget::Efi { force } => *force,
        }
    }
}

} // verus!

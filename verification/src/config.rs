//! Install-time configuration, merged with environment and flag overrides.
//! Precedence, lowest to highest: defaults, file, env, flags.
use vstd::prelude::*;
use vstd::string::*;

use crate::text::{
    a_single_piece, blanks_are_trimmed, cmd, copy_texts, cut, is_blank, is_trimmed, is_white, join,
    joined, keep_nonempty, lists, nonempty, nonempty_keeps, nonempty_of_both, opt_text, opt_texts, pieces,
    pieces_hold_no_separator, pieces_of_both, push_text, same, show_text, shown_text, texts, trim,
    trimmed, trimming_trims, ArgList, Sep,
};

verus! {

pub const STACK_MD_LVM_EXT4: &'static str = "dm-crypt~md~lvm~ext4";

pub const STACK_MD_LVM_XFS: &'static str = "dm-crypt~md~lvm~xfs";

pub const STACK_BTRFS: &'static str = "dm-crypt~btrfs";

pub const STACK_BCACHEFS: &'static str = "dm-crypt~bcachefs";

pub const STACK_ZFS: &'static str = "dm-crypt~zfs";

pub const STACK_MD_INTEGRITY: &'static str = "dm-integrity~md~dm-crypt~lvm~ext4";

/// Every stack identifier.
pub const STACKS: [&'static str; 6] = [
    STACK_MD_LVM_EXT4,
    STACK_MD_LVM_XFS,
    STACK_BTRFS,
    STACK_BCACHEFS,
    STACK_ZFS,
    STACK_MD_INTEGRITY,
];

/// What carries the redundancy of the root: it decides which raid levels exist.
#[derive(Debug, Clone, Copy, PartialEq, Eq, Structural)]
pub enum Family {
    Md,
    Btrfs,
    Zfs,
    Bcachefs,
}

#[derive(Debug)]
pub struct Config {
    pub install: Install,
    pub disks: Disks,
    pub raid: Raid,
    pub crypt: Crypt,
    pub integrity: Integrity,
    pub btrfs: Btrfs,
    pub boot: Boot,
    pub benchmark: Benchmark,
}

#[derive(Debug)]
pub struct Install {
    pub release: String,
    pub backports: bool,
    pub boot_mode: String,
    pub extra_packages: Vec<String>,
    /// Enable a serial console (ttyS0) on the installed system.
    pub serial_console: bool,
    /// Bake the raiden binary and the manifest into the initrd, so that a degraded
    /// root can be brought online from the rescue shell.
    pub initramfs_recovery: bool,
}

#[derive(Debug)]
pub struct Disks {
    pub members: Vec<String>,
    /// What stands between a disk's name and a partition number; where it is empty,
    /// the kernel's rule says so for each disk.
    pub part_prefix: String,
}

#[derive(Debug)]
pub struct Raid {
    pub stack: String,
    pub level: String,
    pub metadata_level: String,
}

#[derive(Debug)]
pub struct Crypt {
    pub cipher: String,
    pub key_size: u32,
    pub sector_size: u32,
    pub integrity: String,
    /// Skip luksFormat's full-device integrity wipe (aead only).
    pub integrity_no_wipe: bool,
    pub extra_args: Vec<String>,
}

#[derive(Debug)]
pub struct Integrity {
    pub algorithm: String,
}

#[derive(Debug)]
pub struct Btrfs {
    pub csum: String,
}

/// Sysbench fileio working-set size, passes per mode, and per-mode event counts.
#[derive(Debug)]
pub struct Benchmark {
    pub size: String,
    pub passes: u32,
    pub rndwr_events: u64,
    pub seqwr_events: u64,
}

/// /boot on an md raid1 array across all disks, or an independent ext4 /boot per
/// disk. The level is only consulted in raid mode; the bitmap is also used by the
/// root arrays.
#[derive(Debug)]
pub struct Boot {
    pub raid: bool,
    pub level: u32,
    pub bitmap: String,
}

/// Overrides from the environment or from command line flags.
#[derive(Debug)]
pub struct Overrides {
    pub stack: Option<String>,
    pub level: Option<String>,
    pub disks: Option<Vec<String>>,
    pub release: Option<String>,
}

// --------------------------------------------------------------------- model

#[verifier::ext_equal]
pub struct InstallModel {
    pub release: Seq<char>,
    pub backports: bool,
    pub boot_mode: Seq<char>,
    pub extra_packages: Seq<Seq<char>>,
    pub serial_console: bool,
    pub initramfs_recovery: bool,
}

#[verifier::ext_equal]
pub struct DisksModel {
    pub members: Seq<Seq<char>>,
    pub part_prefix: Seq<char>,
}

#[verifier::ext_equal]
pub struct RaidModel {
    pub stack: Seq<char>,
    pub level: Seq<char>,
    pub metadata_level: Seq<char>,
}

#[verifier::ext_equal]
pub struct CryptModel {
    pub cipher: Seq<char>,
    pub key_size: u32,
    pub sector_size: u32,
    pub integrity: Seq<char>,
    pub integrity_no_wipe: bool,
    pub extra_args: Seq<Seq<char>>,
}

#[verifier::ext_equal]
pub struct BenchmarkModel {
    pub size: Seq<char>,
    pub passes: u32,
    pub rndwr_events: u64,
    pub seqwr_events: u64,
}

#[verifier::ext_equal]
pub struct BootModel {
    pub raid: bool,
    pub level: u32,
    pub bitmap: Seq<char>,
}

#[verifier::ext_equal]
pub struct ConfigModel {
    pub install: InstallModel,
    pub disks: DisksModel,
    pub raid: RaidModel,
    pub crypt: CryptModel,
    pub integrity_algorithm: Seq<char>,
    pub btrfs_csum: Seq<char>,
    pub boot: BootModel,
    pub benchmark: BenchmarkModel,
}

#[verifier::ext_equal]
pub struct OverridesModel {
    pub stack: Option<Seq<char>>,
    pub level: Option<Seq<char>>,
    pub disks: Option<Seq<Seq<char>>>,
    pub release: Option<Seq<char>>,
}

impl View for Config {
    type V = ConfigModel;

    open spec fn view(&self) -> ConfigModel {
        ConfigModel {
            install: InstallModel {
                release: self.install.release@,
                backports: self.install.backports,
                boot_mode: self.install.boot_mode@,
                extra_packages: texts(self.install.extra_packages@),
                serial_console: self.install.serial_console,
                initramfs_recovery: self.install.initramfs_recovery,
            },
            disks: DisksModel {
                members: texts(self.disks.members@),
                part_prefix: self.disks.part_prefix@,
            },
            raid: RaidModel {
                stack: self.raid.stack@,
                level: self.raid.level@,
                metadata_level: self.raid.metadata_level@,
            },
            crypt: CryptModel {
                cipher: self.crypt.cipher@,
                key_size: self.crypt.key_size,
                sector_size: self.crypt.sector_size,
                integrity: self.crypt.integrity@,
                integrity_no_wipe: self.crypt.integrity_no_wipe,
                extra_args: texts(self.crypt.extra_args@),
            },
            integrity_algorithm: self.integrity.algorithm@,
            btrfs_csum: self.btrfs.csum@,
            boot: BootModel {
                raid: self.boot.raid,
                level: self.boot.level,
                bitmap: self.boot.bitmap@,
            },
            benchmark: BenchmarkModel {
                size: self.benchmark.size@,
                passes: self.benchmark.passes,
                rndwr_events: self.benchmark.rndwr_events,
                seqwr_events: self.benchmark.seqwr_events,
            },
        }
    }
}

impl View for Overrides {
    type V = OverridesModel;

    open spec fn view(&self) -> OverridesModel {
        OverridesModel {
            stack: opt_text(self.stack),
            level: opt_text(self.level),
            disks: opt_texts(self.disks),
            release: opt_text(self.release),
        }
    }
}

/// The built-in configuration.
pub open spec fn default_config() -> ConfigModel {
    ConfigModel {
        install: InstallModel {
            release: "forky"@,
            backports: false,
            boot_mode: "efi"@,
            extra_packages: Seq::empty(),
            serial_console: false,
            initramfs_recovery: true,
        },
        disks: DisksModel { members: Seq::empty(), part_prefix: Seq::empty() },
        raid: RaidModel { stack: STACK_MD_LVM_EXT4@, level: "6"@, metadata_level: Seq::empty() },
        crypt: CryptModel {
            cipher: "aegis128-plain64"@,
            key_size: 128,
            sector_size: 4096,
            integrity: "aead"@,
            integrity_no_wipe: false,
            extra_args: Seq::empty(),
        },
        integrity_algorithm: "crc32c"@,
        btrfs_csum: "xxhash"@,
        boot: BootModel { raid: false, level: 1, bitmap: "internal"@ },
        benchmark: BenchmarkModel {
            size: "2G"@,
            passes: 3,
            rndwr_events: 5000,
            seqwr_events: 20000,
        },
    }
}

impl Default for Install {
    fn default() -> (r: Self)
        ensures
            r.release@ == "forky"@,
            !r.backports,
            r.boot_mode@ == "efi"@,
            r.extra_packages@.len() == 0,
            !r.serial_console,
            r.initramfs_recovery,
    {
        Self {
            release: "forky".to_owned(),
            backports: false,
            boot_mode: "efi".to_owned(),
            extra_packages: Vec::new(),
            serial_console: false,
            initramfs_recovery: true,
        }
    }
}

impl Default for Disks {
    fn default() -> (r: Self)
        ensures
            r.members@.len() == 0,
            r.part_prefix@ == Seq::<char>::empty(),
    {
        Self { members: Vec::new(), part_prefix: String::new() }
    }
}

impl Default for Raid {
    fn default() -> (r: Self)
        ensures
            r.stack@ == STACK_MD_LVM_EXT4@,
            r.level@ == "6"@,
            r.metadata_level@ == Seq::<char>::empty(),
    {
        Self {
            stack: STACK_MD_LVM_EXT4.to_owned(),
            level: "6".to_owned(),
            metadata_level: String::new(),
        }
    }
}

impl Default for Crypt {
    fn default() -> (r: Self)
        ensures
            r.cipher@ == "aegis128-plain64"@,
            r.key_size == 128,
            r.sector_size == 4096,
            r.integrity@ == "aead"@,
            !r.integrity_no_wipe,
            r.extra_args@.len() == 0,
    {
        Self {
            cipher: "aegis128-plain64".to_owned(),
            key_size: 128,
            sector_size: 4096,
            integrity: "aead".to_owned(),
            integrity_no_wipe: false,
            extra_args: Vec::new(),
        }
    }
}

impl Default for Integrity {
    /// crc32c is a kernel built-in; xxhash64 needs a crypto module that is absent
    /// from the live environment and the integrity initramfs hook.
    fn default() -> (r: Self)
        ensures
            r.algorithm@ == "crc32c"@,
    {
        Self { algorithm: "crc32c".to_owned() }
    }
}

impl Default for Btrfs {
    fn default() -> (r: Self)
        ensures
            r.csum@ == "xxhash"@,
    {
        Self { csum: "xxhash".to_owned() }
    }
}

impl Default for Boot {
    fn default() -> (r: Self)
        ensures
            !r.raid,
            r.level == 1,
            r.bitmap@ == "internal"@,
    {
        Self { raid: false, level: 1, bitmap: "internal".to_owned() }
    }
}

impl Default for Benchmark {
    fn default() -> (r: Self)
        ensures
            r.size@ == "2G"@,
            r.passes == 3,
            r.rndwr_events == 5000,
            r.seqwr_events == 20000,
    {
        Self { size: "2G".to_owned(), passes: 3, rndwr_events: 5000, seqwr_events: 20000 }
    }
}

impl Default for Config {
    fn default() -> (r: Self)
        ensures
            r@ == default_config(),
    {
        Self {
            install: Install::default(),
            disks: Disks::default(),
            raid: Raid::default(),
            crypt: Crypt::default(),
            integrity: Integrity::default(),
            btrfs: Btrfs::default(),
            boot: Boot::default(),
            benchmark: Benchmark::default(),
        }
    }
}

impl Default for Overrides {
    fn default() -> (r: Self)
        ensures
            r.stack is None,
            r.level is None,
            r.disks is None,
            r.release is None,
    {
        Self { stack: None, level: None, disks: None, release: None }
    }
}

// ----------------------------------------------------------------- overrides

/// The value of higher precedence, where there is one.
pub open spec fn prefer<T>(higher: Option<T>, lower: T) -> T {
    match higher {
        Some(v) => v,
        None => lower,
    }
}

/// The override of higher precedence, where there is one.
pub open spec fn prefer_opt<T>(higher: Option<T>, lower: Option<T>) -> Option<T> {
    if higher is Some {
        higher
    } else {
        lower
    }
}

impl ConfigModel {
    /// The configuration under the overrides: what they set, and nothing else, changes.
    pub open spec fn apply(self, o: OverridesModel) -> ConfigModel {
        ConfigModel {
            install: InstallModel { release: prefer(o.release, self.install.release), ..self.install },
            disks: DisksModel { members: prefer(o.disks, self.disks.members), ..self.disks },
            raid: RaidModel {
                stack: prefer(o.stack, self.raid.stack),
                level: prefer(o.level, self.raid.level),
                ..self.raid
            },
            ..self
        }
    }
}

impl OverridesModel {
    /// These overrides under those of higher precedence.
    pub open spec fn overlay(self, higher: OverridesModel) -> OverridesModel {
        OverridesModel {
            stack: prefer_opt(higher.stack, self.stack),
            level: prefer_opt(higher.level, self.level),
            disks: prefer_opt(higher.disks, self.disks),
            release: prefer_opt(higher.release, self.release),
        }
    }
}

/// Overlaying overrides and applying the outcome is applying them one after the
/// other, lowest precedence first.
pub proof fn overlay_applies_in_order(c: ConfigModel, lower: OverridesModel, higher: OverridesModel)
    ensures
        c.apply(lower.overlay(higher)) == c.apply(lower).apply(higher),
{
}

/// Flags win over the environment, the environment over the file, and the file
/// stands where neither speaks.
pub proof fn precedence_of_sources(file: ConfigModel, env: OverridesModel, flags: OverridesModel)
    ensures
        ({
            let c = file.apply(env).apply(flags);
            &&& c.raid.stack == prefer(flags.stack, prefer(env.stack, file.raid.stack))
            &&& c.raid.level == prefer(flags.level, prefer(env.level, file.raid.level))
            &&& c.disks.members == prefer(flags.disks, prefer(env.disks, file.disks.members))
            &&& c.install.release == prefer(flags.release, prefer(env.release, file.install.release))
        }),
{
}

fn copy_opt(o: &Option<String>) -> (r: Option<String>)
    ensures
        opt_text(r) == opt_text(*o),
{
    match o {
        Some(v) => Some(v.clone()),
        None => None,
    }
}

impl Config {
    /// Applies one set of overrides.
    pub fn apply(&mut self, o: &Overrides)
        ensures
            final(self)@ == old(self)@.apply(o@),
    {
        if let Some(v) = &o.stack {
            self.raid.stack = v.clone();
        }
        if let Some(v) = &o.level {
            self.raid.level = v.clone();
        }
        if let Some(v) = &o.disks {
            self.disks.members = copy_texts(v);
        }
        if let Some(v) = &o.release {
            self.install.release = v.clone();
        }
    }

    /// Applies the environment's overrides, then the flags'.
    pub fn merge(&mut self, env: &Overrides, flags: &Overrides)
        ensures
            final(self)@ == old(self)@.apply(env@).apply(flags@),
    {
        self.apply(env);
        self.apply(flags);
    }
}

/// The variable's value, where it is set and not empty.
pub open spec fn set_value(v: Option<Seq<char>>) -> Option<Seq<char>> {
    match v {
        Some(s) => if s.len() == 0 {
            None
        } else {
            Some(s)
        },
        None => None,
    }
}

fn set(v: Option<String>) -> (r: Option<String>)
    ensures
        opt_text(r) == set_value(opt_text(v)),
{
    match v {
        Some(s) => if s.as_str().is_empty() {
            None
        } else {
            Some(s)
        },
        None => None,
    }
}

impl Overrides {
    /// The overrides that the environment's variables make: an empty variable
    /// counts as unset.
    pub fn from_vars(
        stack: Option<String>,
        level: Option<String>,
        disks: Option<String>,
        release: Option<String>,
    ) -> (r: Self)
        ensures
            r@ == (OverridesModel {
                stack: set_value(opt_text(stack)),
                level: set_value(opt_text(level)),
                disks: match set_value(opt_text(disks)) {
                    Some(s) => Some(disk_list(s)),
                    None => None,
                },
                release: set_value(opt_text(release)),
            }),
    {
        let disks = match set(disks) {
            Some(s) => Some(split_disks(s.as_str())),
            None => None,
        };
        Self { stack: set(stack), level: set(level), disks, release: set(release) }
    }

    /// These overrides under those of higher precedence.
    pub fn overlay(self, higher: &Overrides) -> (r: Self)
        ensures
            r@ == self@.overlay(higher@),
    {
        Overrides {
            stack: if higher.stack.is_some() {
                copy_opt(&higher.stack)
            } else {
                self.stack
            },
            level: if higher.level.is_some() {
                copy_opt(&higher.level)
            } else {
                self.level
            },
            disks: match &higher.disks {
                Some(v) => Some(copy_texts(v)),
                None => self.disks,
            },
            release: if higher.release.is_some() {
                copy_opt(&higher.release)
            } else {
                self.release
            },
        }
    }
}

/// The disks that a comma-separated list names: trimmed, without the blanks.
pub open spec fn disk_list(s: Seq<char>) -> Seq<Seq<char>> {
    nonempty(pieces(s, Sep::Is(',')).map_values(|d: Seq<char>| trimmed(d)))
}

/// Splits a comma-separated disk list, trimming blanks.
pub fn split_disks(s: &str) -> (r: Vec<String>)
    ensures
        texts(r@) == disk_list(s@),
{
    let all = cut(s, Sep::Is(','));
    let ghost want = texts(all@).map_values(|d: Seq<char>| trimmed(d));
    let mut out: Vec<String> = Vec::new();
    let mut i: usize = 0;
    while i < all.len()
        invariant
            i <= all.len(),
            want == texts(all@).map_values(|d: Seq<char>| trimmed(d)),
            texts(out@) =~= want.take(i as int),
        decreases all.len() - i,
    {
        let d = trim(all[i].as_str());
        push_text(&mut out, d.as_str());
        i += 1;
    }
    assert(want.take(all@.len() as int) =~= want);
    keep_nonempty(&out)
}

/// Whether a text can stand in a disk list: it is not empty, has no white space at
/// either end, and holds no comma.
pub open spec fn is_disk_name(d: Seq<char>) -> bool {
    d.len() > 0 && is_trimmed(d) && !d.contains(',')
}

/// Two lists with a comma between them name the disks of both.
proof fn disks_of_both(a: Seq<char>, b: Seq<char>)
    ensures
        disk_list(a + ","@ + b) == disk_list(a) + disk_list(b),
{
    let sep = Sep::Is(',');
    let f = |d: Seq<char>| trimmed(d);
    let (x, y) = (pieces(a, sep), pieces(b, sep));
    reveal_strlit(",");
    assert(a + ","@ + b =~= a.push(',') + b);
    pieces_of_both(a, ',', b, sep);
    assert((x + y).map_values(f) =~= x.map_values(f) + y.map_values(f));
    nonempty_of_both(x.map_values(f), y.map_values(f));
}

/// A list without a comma names what is left of it when trimmed.
proof fn disks_of_one(d: Seq<char>)
    requires
        !d.contains(','),
    ensures
        disk_list(d) == (if trimmed(d).len() == 0 {
            Seq::empty()
        } else {
            seq![trimmed(d)]
        }),
{
    let sep = Sep::Is(',');
    let f = |d: Seq<char>| trimmed(d);
    assert forall|i: int| 0 <= i < d.len() implies !sep.at(#[trigger] d[i]) by {
        assert(d.contains(d[i]));
    }
    a_single_piece(d, sep);
    let one = seq![d].map_values(f);
    assert(one =~= seq![trimmed(d)]);
    let none = Seq::<Seq<char>>::empty();
    assert(one.drop_last() =~= none);
    assert(nonempty(none) =~= none);
    assert(none.push(trimmed(d)) =~= seq![trimmed(d)]);
}

/// Splitting the comma-joined list of disk names gives the list back, in its order and
/// with its repeats.
pub proof fn a_joined_list_splits_back(v: Seq<Seq<char>>)
    requires
        forall|i: int| 0 <= i < v.len() ==> is_disk_name(#[trigger] v[i]),
    ensures
        disk_list(joined(v, ","@)) == v,
    decreases v.len(),
{
    if v.len() == 0 {
        let none = Seq::<char>::empty();
        disks_of_one(none);
        assert(disk_list(none) =~= v);
    } else {
        let d = v.last();
        assert(is_disk_name(v[v.len() - 1]));
        trimming_trims(d);
        disks_of_one(d);
        if v.len() == 1 {
            assert(v =~= seq![d]);
        } else {
            let rest = v.drop_last();
            assert forall|i: int| 0 <= i < rest.len() implies is_disk_name(#[trigger] rest[i]) by {
                assert(rest[i] == v[i]);
            }
            a_joined_list_splits_back(rest);
            disks_of_both(joined(rest, ","@), d);
            assert(v =~= rest + seq![d]);
        }
    }
}

/// White space around a list and empty entries behind it make no difference.
pub proof fn blanks_name_no_disk(before: Seq<char>, s: Seq<char>, after: Seq<char>)
    requires
        is_blank(before),
        is_blank(after),
    ensures
        disk_list(before + s + after) == disk_list(s),
        disk_list(s + ","@ + after) == disk_list(s),
{
    blanks_hold_no_comma(after);
    disks_of_both(s, after);
    let none = Seq::<char>::empty();
    blanks_are_trimmed(after, none, none);
    assert(after + none + none =~= after);
    disks_of_one(after);
    assert(disk_list(s) + Seq::<Seq<char>>::empty() =~= disk_list(s));
    blanks_around_a_list(before, s, after);
}

proof fn blanks_hold_no_comma(w: Seq<char>)
    requires
        is_blank(w),
    ensures
        !w.contains(','),
{
    if w.contains(',') {
        let i = choose|i: int| 0 <= i < w.len() && w[i] == ',';
        assert(is_white(w[i]));
    }
}

proof fn blanks_around_a_list(before: Seq<char>, s: Seq<char>, after: Seq<char>)
    requires
        is_blank(before),
        is_blank(after),
    ensures
        disk_list(before + s + after) == disk_list(s),
    decreases s.len(),
{
    blanks_hold_no_comma(before);
    blanks_hold_no_comma(after);
    reveal_strlit(",");
    if s.contains(',') {
        let i = choose|i: int| 0 <= i < s.len() && s[i] == ',';
        let (a, b) = (s.take(i), s.skip(i + 1));
        let none = Seq::<char>::empty();
        assert(is_blank(none));
        assert(s =~= a + ","@ + b);
        assert(before + s + after =~= (before + a + none) + ","@ + (none + b + after));
        disks_of_both(a, b);
        disks_of_both(before + a + none, none + b + after);
        blanks_around_a_list(before, a, none);
        blanks_around_a_list(none, b, after);
    } else {
        let t = before + s + after;
        if t.contains(',') {
            let i = choose|i: int| 0 <= i < t.len() && t[i] == ',';
            if i < before.len() {
                assert(before[i] == ',');
            } else if i < before.len() + s.len() {
                assert(s[i - before.len()] == ',');
            } else {
                assert(after[i - before.len() - s.len()] == ',');
            }
        }
        disks_of_one(s);
        disks_of_one(t);
        blanks_are_trimmed(before, s, after);
    }
}

/// Splitting a comma-joined list of disk names gives the list back also where white
/// space stands around it, and blank entries behind it.
pub proof fn a_padded_list_splits_back(
    v: Seq<Seq<char>>,
    before: Seq<char>,
    after: Seq<char>,
    blank: Seq<char>,
)
    requires
        forall|i: int| 0 <= i < v.len() ==> is_disk_name(#[trigger] v[i]),
        is_blank(before),
        is_blank(after),
        is_blank(blank),
    ensures
        disk_list(before + joined(v, ","@) + after) == v,
        disk_list(before + joined(v, ","@) + after + ","@ + blank + ","@) == v,
{
    let s = joined(v, ","@);
    let none = Seq::<char>::empty();
    a_joined_list_splits_back(v);
    blanks_name_no_disk(before, s, after);
    let padded = before + s + after;
    blanks_name_no_disk(none, padded, blank);
    let more = padded + ","@ + blank;
    blanks_name_no_disk(none, more, none);
    assert(more + ","@ + none =~= more + ","@);
}

/// Whatever the list, each of its entries is a disk name: not empty, trimmed, and
/// without a comma.
pub proof fn a_list_holds_disk_names(s: Seq<char>, k: int)
    requires
        0 <= k < disk_list(s).len(),
    ensures
        is_disk_name(disk_list(s)[k]),
{
    let sep = Sep::Is(',');
    let parts = pieces(s, sep);
    let all = parts.map_values(|d: Seq<char>| trimmed(d));
    let i = nonempty_keeps(all, k);
    let d = all[i];
    trimming_trims(parts[i]);
    if d.contains(',') {
        assert(parts[i].contains(','));
        let j = choose|j: int| 0 <= j < parts[i].len() && parts[i][j] == ',';
        pieces_hold_no_separator(s, sep, i, j);
    }
}

// ---------------------------------------------------------------- validation

/// Why a configuration is refused.
#[derive(Debug)]
pub enum ConfigError {
    UnknownStack(String),
    NoMembers,
    DuplicateMember(String),
    BadBootMode(String),
    BadIntegrity(String),
    BadLevel(String, Family),
    NoPasses,
    NoEvents,
}

/// What is wrong with a configuration.
pub enum Fault {
    UnknownStack(Seq<char>),
    NoMembers,
    DuplicateMember(Seq<char>),
    BadBootMode(Seq<char>),
    BadIntegrity(Seq<char>),
    BadLevel(Seq<char>, Family),
    NoPasses,
    NoEvents,
}

impl View for ConfigError {
    type V = Fault;

    open spec fn view(&self) -> Fault {
        match self {
            ConfigError::UnknownStack(s) => Fault::UnknownStack(s@),
            ConfigError::NoMembers => Fault::NoMembers,
            ConfigError::DuplicateMember(s) => Fault::DuplicateMember(s@),
            ConfigError::BadBootMode(s) => Fault::BadBootMode(s@),
            ConfigError::BadIntegrity(s) => Fault::BadIntegrity(s@),
            ConfigError::BadLevel(s, f) => Fault::BadLevel(s@, *f),
            ConfigError::NoPasses => Fault::NoPasses,
            ConfigError::NoEvents => Fault::NoEvents,
        }
    }
}

/// Every stack identifier, as `STACKS` lists them.
pub open spec fn stack_ids() -> Seq<Seq<char>> {
    seq![
        STACK_MD_LVM_EXT4@,
        STACK_MD_LVM_XFS@,
        STACK_BTRFS@,
        STACK_BCACHEFS@,
        STACK_ZFS@,
        STACK_MD_INTEGRITY@,
    ]
}

impl Family {
    /// What a family is called.
    pub open spec fn called(self) -> Seq<char> {
        match self {
            Family::Md => "md"@,
            Family::Zfs => "zfs"@,
            Family::Btrfs => "btrfs"@,
            Family::Bcachefs => "bcachefs"@,
        }
    }

    /// What the family is called.
    pub fn label(self) -> (r: String)
        ensures
            r@ == self.called(),
    {
        match self {
            Family::Md => "md".to_owned(),
            Family::Zfs => "zfs".to_owned(),
            Family::Btrfs => "btrfs".to_owned(),
            Family::Bcachefs => "bcachefs".to_owned(),
        }
    }
}

impl Fault {
    /// What is printed of the fault.
    pub open spec fn text(self) -> Seq<char> {
        match self {
            Fault::UnknownStack(s) => "unknown stack "@ + shown_text(s) + "; valid stacks: "@
                + joined(stack_ids(), ", "@),
            Fault::NoMembers => "disks.members is empty; list at least one member disk"@,
            Fault::DuplicateMember(d) => "disks.members contains duplicate "@ + shown_text(d),
            Fault::BadBootMode(m) => "install.boot_mode must be \"efi\" or \"bios\", got "@
                + shown_text(m),
            Fault::BadIntegrity(i) => "crypt.integrity must be \"aead\" or \"none\", got "@
                + shown_text(i),
            Fault::BadLevel(l, f) => "raid.level "@ + shown_text(l) + " invalid for "@ + f.called()
                + " stack; valid: "@ + joined(levels_of(f), ", "@),
            Fault::NoPasses => "benchmark.passes must be at least 1"@,
            Fault::NoEvents =>
                "benchmark.rndwr_events and benchmark.seqwr_events must be non-zero"@,
        }
    }
}

impl ConfigError {
    /// What is printed of the error.
    pub fn message(&self) -> (r: String)
        ensures
            r@ == self@.text(),
    {
        match self {
            ConfigError::UnknownStack(s) => {
                let ids = cmd(STACK_MD_LVM_EXT4).arg(STACK_MD_LVM_XFS).arg(STACK_BTRFS).arg(
                    STACK_BCACHEFS,
                ).arg(STACK_ZFS).arg(STACK_MD_INTEGRITY);
                assert(texts(ids@) =~= stack_ids());
                "unknown stack ".to_owned().concat(show_text(s.as_str()).as_str()).concat(
                    "; valid stacks: ",
                ).concat(join(&ids, ", ").as_str())
            },
            ConfigError::NoMembers => {
                "disks.members is empty; list at least one member disk".to_owned()
            },
            ConfigError::DuplicateMember(d) => {
                "disks.members contains duplicate ".to_owned().concat(
                    show_text(d.as_str()).as_str(),
                )
            },
            ConfigError::BadBootMode(m) => {
                "install.boot_mode must be \"efi\" or \"bios\", got ".to_owned().concat(
                    show_text(m.as_str()).as_str(),
                )
            },
            ConfigError::BadIntegrity(i) => {
                "crypt.integrity must be \"aead\" or \"none\", got ".to_owned().concat(
                    show_text(i.as_str()).as_str(),
                )
            },
            ConfigError::BadLevel(l, f) => {
                "raid.level ".to_owned().concat(show_text(l.as_str()).as_str()).concat(
                    " invalid for ",
                ).concat(f.label().as_str()).concat(" stack; valid: ").concat(
                    join(&family_levels(*f), ", ").as_str(),
                )
            },
            ConfigError::NoPasses => "benchmark.passes must be at least 1".to_owned(),
            ConfigError::NoEvents => {
                "benchmark.rndwr_events and benchmark.seqwr_events must be non-zero".to_owned()
            },
        }
    }
}

/// The family that a stack identifier belongs to.
pub open spec fn family_of(stack: Seq<char>) -> Option<Family> {
    if stack == STACK_MD_LVM_EXT4@ || stack == STACK_MD_LVM_XFS@ || stack == STACK_MD_INTEGRITY@ {
        Some(Family::Md)
    } else if stack == STACK_BTRFS@ {
        Some(Family::Btrfs)
    } else if stack == STACK_BCACHEFS@ {
        Some(Family::Bcachefs)
    } else if stack == STACK_ZFS@ {
        Some(Family::Zfs)
    } else {
        None
    }
}

/// The raid levels of a family. A bcachefs level is a number of replicas.
pub open spec fn levels_of(family: Family) -> Seq<Seq<char>> {
    match family {
        Family::Md => seq!["0"@, "1"@, "5"@, "6"@, "10"@],
        Family::Zfs => seq!["raidz1"@, "raidz2"@, "raidz3"@],
        Family::Bcachefs => seq!["1"@, "2"@, "3"@, "4"@],
        Family::Btrfs => seq![
            "raid0"@,
            "raid1"@,
            "raid1c2"@,
            "raid1c3"@,
            "raid1c4"@,
            "raid5"@,
            "raid6"@,
            "raid10"@,
        ],
    }
}

/// The first entry that repeats an earlier one.
pub open spec fn first_repeat(v: Seq<Seq<char>>) -> Option<Seq<char>>
    decreases v.len(),
{
    if v.len() == 0 {
        None
    } else if first_repeat(v.drop_last()) is Some {
        first_repeat(v.drop_last())
    } else if v.drop_last().contains(v.last()) {
        Some(v.last())
    } else {
        None
    }
}

impl ConfigModel {
    /// The first thing that is wrong with the configuration, in the order of the rules.
    pub open spec fn fault(self) -> Option<Fault> {
        if family_of(self.raid.stack) is None {
            Some(Fault::UnknownStack(self.raid.stack))
        } else if self.disks.members.len() == 0 {
            Some(Fault::NoMembers)
        } else if first_repeat(self.disks.members) is Some {
            Some(Fault::DuplicateMember(first_repeat(self.disks.members)->0))
        } else if self.install.boot_mode != "efi"@ && self.install.boot_mode != "bios"@ {
            Some(Fault::BadBootMode(self.install.boot_mode))
        } else if self.crypt.integrity != "aead"@ && self.crypt.integrity != "none"@ {
            Some(Fault::BadIntegrity(self.crypt.integrity))
        } else if !levels_of(family_of(self.raid.stack)->0).contains(self.raid.level) {
            Some(Fault::BadLevel(self.raid.level, family_of(self.raid.stack)->0))
        } else if self.benchmark.passes == 0 {
            Some(Fault::NoPasses)
        } else if self.benchmark.rndwr_events == 0 || self.benchmark.seqwr_events == 0 {
            Some(Fault::NoEvents)
        } else {
            None
        }
    }

    /// Whether the configuration is valid.
    pub open spec fn valid(self) -> bool {
        &&& family_of(self.raid.stack) is Some
        &&& self.disks.members.len() > 0
        &&& self.disks.members.no_duplicates()
        &&& self.install.boot_mode == "efi"@ || self.install.boot_mode == "bios"@
        &&& self.crypt.integrity == "aead"@ || self.crypt.integrity == "none"@
        &&& levels_of(family_of(self.raid.stack)->0).contains(self.raid.level)
        &&& self.benchmark.passes > 0
        &&& self.benchmark.rndwr_events > 0
        &&& self.benchmark.seqwr_events > 0
    }

    /// The metadata level, which defaults to the data level.
    pub open spec fn metadata_level(self) -> Seq<char> {
        if self.raid.metadata_level.len() == 0 {
            self.raid.level
        } else {
            self.raid.metadata_level
        }
    }

    /// Whether the system boots by efi.
    pub open spec fn efi(self) -> bool {
        self.install.boot_mode == "efi"@
    }
}

/// A list has a repeat exactly where its entries are not distinct.
pub proof fn repeats_are_duplicates(v: Seq<Seq<char>>)
    ensures
        first_repeat(v) is None <==> v.no_duplicates(),
    decreases v.len(),
{
    if v.len() > 0 {
        let rest = v.drop_last();
        repeats_are_duplicates(rest);
        if first_repeat(v) is None {
            assert forall|i: int, j: int| 0 <= i < v.len() && 0 <= j < v.len() && i != j implies v[i]
                != v[j] by {
                if i == v.len() - 1 {
                    assert(rest[j] == v[j]);
                } else if j == v.len() - 1 {
                    assert(rest[i] == v[i]);
                } else {
                    assert(rest[i] == v[i] && rest[j] == v[j]);
                }
            }
        } else if first_repeat(rest) is None {
            let i = choose|i: int| 0 <= i < rest.len() && rest[i] == v.last();
            assert(v[i] == v[v.len() - 1]);
        } else {
            let (i, j) = choose|i: int, j: int|
                0 <= i < rest.len() && 0 <= j < rest.len() && i != j && rest[i] == rest[j];
            assert(v[i] == v[j]);
        }
    }
}

/// A configuration without a fault is a valid one, and a valid one has no fault.
pub proof fn valid_means_no_fault(c: ConfigModel)
    ensures
        c.fault() is None <==> c.valid(),
{
    repeats_are_duplicates(c.disks.members);
}

/// Whether a stack can be built at a level.
pub open spec fn buildable(stack: Seq<char>, l: Seq<char>) -> bool {
    if stack == "dm-crypt~md~lvm~ext4"@ || stack == "dm-crypt~md~lvm~xfs"@ || stack
        == "dm-integrity~md~dm-crypt~lvm~ext4"@ {
        l == "0"@ || l == "1"@ || l == "5"@ || l == "6"@ || l == "10"@
    } else if stack == "dm-crypt~btrfs"@ {
        ||| l == "raid0"@ || l == "raid1"@ || l == "raid1c2"@ || l == "raid1c3"@
        ||| l == "raid1c4"@ || l == "raid5"@ || l == "raid6"@ || l == "raid10"@
    } else if stack == "dm-crypt~bcachefs"@ {
        l == "1"@ || l == "2"@ || l == "3"@ || l == "4"@
    } else if stack == "dm-crypt~zfs"@ {
        l == "raidz1"@ || l == "raidz2"@ || l == "raidz3"@
    } else {
        false
    }
}

/// What a valid configuration is: a known stack at a level that it can be built at, on
/// disks that are named once, with a way to boot and to check integrity, and a benchmark
/// that runs.
pub proof fn what_a_valid_configuration_is(c: ConfigModel)
    ensures
        c.fault() is None <==> {
            &&& buildable(c.raid.stack, c.raid.level)
            &&& c.disks.members.len() > 0
            &&& forall|i: int, j: int|
                0 <= i < c.disks.members.len() && 0 <= j < c.disks.members.len() && i != j
                    ==> c.disks.members[i] != c.disks.members[j]
            &&& c.install.boot_mode == "efi"@ || c.install.boot_mode == "bios"@
            &&& c.crypt.integrity == "aead"@ || c.crypt.integrity == "none"@
            &&& c.benchmark.passes > 0
            &&& c.benchmark.rndwr_events > 0
            &&& c.benchmark.seqwr_events > 0
        },
{
    valid_means_no_fault(c);
    known_levels(c.raid.stack, c.raid.level);
}

proof fn known_levels(stack: Seq<char>, l: Seq<char>)
    ensures
        family_of(stack) is Some && levels_of(family_of(stack)->0).contains(l) <==> buildable(
            stack,
            l,
        ),
{
    if let Some(f) = family_of(stack) {
        let v = levels_of(f);
        if v.contains(l) {
            let i = choose|i: int| 0 <= i < v.len() && v[i] == l;
            assert(i == 0 || i == 1 || i == 2 || i == 3 || i == 4 || i == 5 || i == 6 || i == 7);
        }
        if buildable(stack, l) {
            match f {
                Family::Md => {
                    assert(v[0] == l || v[1] == l || v[2] == l || v[3] == l || v[4] == l);
                },
                Family::Zfs => {
                    assert(v[0] == l || v[1] == l || v[2] == l);
                },
                Family::Bcachefs => {
                    assert(v[0] == l || v[1] == l || v[2] == l || v[3] == l);
                },
                Family::Btrfs => {
                    assert(v[0] == l || v[1] == l || v[2] == l || v[3] == l || v[4] == l || v[5]
                        == l || v[6] == l || v[7] == l);
                },
            }
        }
    }
}

/// What an override leaves unset stays as it is, and what it sets goes before.
pub proof fn an_override_goes_before(c: ConfigModel, o: OverridesModel)
    ensures
        c.apply(o).raid.stack == (if o.stack is Some {
            o.stack->0
        } else {
            c.raid.stack
        }),
        c.apply(o).raid.level == (if o.level is Some {
            o.level->0
        } else {
            c.raid.level
        }),
        c.apply(o).disks.members == (if o.disks is Some {
            o.disks->0
        } else {
            c.disks.members
        }),
        c.apply(o).install.release == (if o.release is Some {
            o.release->0
        } else {
            c.install.release
        }),
        c.apply(o).crypt == c.crypt,
        c.apply(o).boot == c.boot,
        c.apply(o).benchmark == c.benchmark,
        c.apply(o).integrity_algorithm == c.integrity_algorithm,
        c.apply(o).btrfs_csum == c.btrfs_csum,
        c.apply(o).disks.part_prefix == c.disks.part_prefix,
        c.apply(o).raid.metadata_level == c.raid.metadata_level,
        c.apply(o).install.boot_mode == c.install.boot_mode,
{
}

/// The levels of a family, as strings.
pub fn family_levels(family: Family) -> (r: Vec<String>)
    ensures
        texts(r@) == levels_of(family),
{
    let mut v: Vec<String> = Vec::new();
    assert(texts(v@) =~= Seq::<Seq<char>>::empty());
    match family {
        Family::Md => {
            push_text(&mut v, "0");
            push_text(&mut v, "1");
            push_text(&mut v, "5");
            push_text(&mut v, "6");
            push_text(&mut v, "10");
        },
        Family::Zfs => {
            push_text(&mut v, "raidz1");
            push_text(&mut v, "raidz2");
            push_text(&mut v, "raidz3");
        },
        Family::Bcachefs => {
            push_text(&mut v, "1");
            push_text(&mut v, "2");
            push_text(&mut v, "3");
            push_text(&mut v, "4");
        },
        Family::Btrfs => {
            push_text(&mut v, "raid0");
            push_text(&mut v, "raid1");
            push_text(&mut v, "raid1c2");
            push_text(&mut v, "raid1c3");
            push_text(&mut v, "raid1c4");
            push_text(&mut v, "raid5");
            push_text(&mut v, "raid6");
            push_text(&mut v, "raid10");
        },
    }
    v
}

fn repeated(v: &Vec<String>) -> (r: Option<String>)
    ensures
        opt_text(r) == first_repeat(texts(v@)),
{
    let ghost all = texts(v@);
    let mut seen: Vec<String> = Vec::new();
    let mut i: usize = 0;
    assert(all.take(0) =~= Seq::<Seq<char>>::empty());
    while i < v.len()
        invariant
            i <= v.len(),
            all == texts(v@),
            texts(seen@) =~= all.take(i as int),
            first_repeat(all.take(i as int)) is None,
        decreases v.len() - i,
    {
        let ghost next = all.take(i + 1);
        assert(next.drop_last() =~= all.take(i as int));
        if lists(&seen, v[i].as_str()) {
            proof {
                repeat_persists(all, i + 1);
            }
            return Some(v[i].clone());
        }
        push_text(&mut seen, v[i].as_str());
        i += 1;
    }
    assert(all.take(all.len() as int) =~= all);
    None
}

proof fn repeat_persists(v: Seq<Seq<char>>, n: int)
    requires
        0 <= n <= v.len(),
        first_repeat(v.take(n)) is Some,
    ensures
        first_repeat(v) == first_repeat(v.take(n)),
    decreases v.len(),
{
    if n == v.len() {
        assert(v.take(n) =~= v);
    } else {
        assert(v.drop_last().take(n) =~= v.take(n));
        repeat_persists(v.drop_last(), n);
    }
}

impl Config {
    /// The family of the configured stack.
    pub fn family(&self) -> (res: Result<Family, ConfigError>)
        ensures
            res is Ok <==> family_of(self@.raid.stack) is Some,
            res is Ok ==> Some(res->Ok_0) == family_of(self@.raid.stack),
            res is Err ==> res->Err_0@ == Fault::UnknownStack(self@.raid.stack),
    {
        let id = self.raid.stack.as_str();
        if same(id, STACK_MD_LVM_EXT4) || same(id, STACK_MD_LVM_XFS) || same(
            id,
            STACK_MD_INTEGRITY,
        ) {
            Ok(Family::Md)
        } else if same(id, STACK_BTRFS) {
            Ok(Family::Btrfs)
        } else if same(id, STACK_BCACHEFS) {
            Ok(Family::Bcachefs)
        } else if same(id, STACK_ZFS) {
            Ok(Family::Zfs)
        } else {
            Err(ConfigError::UnknownStack(self.raid.stack.clone()))
        }
    }

    /// The metadata level, which defaults to the data level when unset (btrfs only).
    pub fn metadata_level(&self) -> (r: &str)
        ensures
            r@ == self@.metadata_level(),
    {
        if self.raid.metadata_level.as_str().is_empty() {
            self.raid.level.as_str()
        } else {
            self.raid.metadata_level.as_str()
        }
    }

    /// Validates the configuration, touching no disk.
    pub fn validate(&self) -> (res: Result<(), ConfigError>)
        ensures
            res is Ok <==> self@.fault() is None,
            res is Err ==> self@.fault() == Some(res->Err_0@),
    {
        let family = match self.family() {
            Ok(f) => f,
            Err(e) => {
                return Err(e);
            },
        };
        assert(texts(self.disks.members@).len() == self.disks.members@.len());
        if self.disks.members.len() == 0 {
            return Err(ConfigError::NoMembers);
        }
        if let Some(d) = repeated(&self.disks.members) {
            return Err(ConfigError::DuplicateMember(d));
        }
        let mode = self.install.boot_mode.as_str();
        if !same(mode, "efi") && !same(mode, "bios") {
            return Err(ConfigError::BadBootMode(self.install.boot_mode.clone()));
        }
        let integrity = self.crypt.integrity.as_str();
        if !same(integrity, "aead") && !same(integrity, "none") {
            return Err(ConfigError::BadIntegrity(self.crypt.integrity.clone()));
        }
        if !lists(&family_levels(family), self.raid.level.as_str()) {
            return Err(ConfigError::BadLevel(self.raid.level.clone(), family));
        }
        if self.benchmark.passes == 0 {
            return Err(ConfigError::NoPasses);
        }
        if self.benchmark.rndwr_events == 0 || self.benchmark.seqwr_events == 0 {
            return Err(ConfigError::NoEvents);
        }
        Ok(())
    }

    /// A copy of the configuration.
    pub fn copy(&self) -> (r: Config)
        ensures
            r@ == self@,
    {
        Config {
            install: Install {
                release: self.install.release.clone(),
                backports: self.install.backports,
                boot_mode: self.install.boot_mode.clone(),
                extra_packages: copy_texts(&self.install.extra_packages),
                serial_console: self.install.serial_console,
                initramfs_recovery: self.install.initramfs_recovery,
            },
            disks: Disks {
                members: copy_texts(&self.disks.members),
                part_prefix: self.disks.part_prefix.clone(),
            },
            raid: Raid {
                stack: self.raid.stack.clone(),
                level: self.raid.level.clone(),
                metadata_level: self.raid.metadata_level.clone(),
            },
            crypt: Crypt {
                cipher: self.crypt.cipher.clone(),
                key_size: self.crypt.key_size,
                sector_size: self.crypt.sector_size,
                integrity: self.crypt.integrity.clone(),
                integrity_no_wipe: self.crypt.integrity_no_wipe,
                extra_args: copy_texts(&self.crypt.extra_args),
            },
            integrity: Integrity { algorithm: self.integrity.algorithm.clone() },
            btrfs: Btrfs { csum: self.btrfs.csum.clone() },
            boot: Boot {
                raid: self.boot.raid,
                level: self.boot.level,
                bitmap: self.boot.bitmap.clone(),
            },
            benchmark: Benchmark {
                size: self.benchmark.size.clone(),
                passes: self.benchmark.passes,
                rndwr_events: self.benchmark.rndwr_events,
                seqwr_events: self.benchmark.seqwr_events,
            },
        }
    }

    /// Whether the system boots by efi.
    pub fn boots_efi(&self) -> (r: bool)
        ensures
            r == self@.efi(),
    {
        same(self.install.boot_mode.as_str(), "efi")
    }
}

} // verus!

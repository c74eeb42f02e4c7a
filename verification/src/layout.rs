//! The device and mount layout that follows from a configuration.
use vstd::prelude::*;
use vstd::string::*;

use crate::config::{Config, ConfigModel};
use crate::text::{copy_texts, dec, decimal, head_all, headed, push_text, same, texts};

verus! {

pub const BOOT_MD_NAME: &'static str = "boot";

pub const BOOT_MD_DEVICE: &'static str = "/dev/md/boot";

pub const ROOT_MD_NAME: &'static str = "root";

pub const ROOT_MD_DEVICE: &'static str = "/dev/md/root";

pub const ZPOOL_NAME: &'static str = "rpool";

/// The primary member's esp is mounted here (by uuid). The other members' esps are
/// mirrors, resynced from this one via transient mounts, so neither / nor /boot
/// carries a per-disk esp mount point.
pub const ESP_MOUNT: &'static str = "/boot/efi";

// Partition numbers on each member disk.
const PART_ESP: u32 = 1;

const PART_BOOT: u32 = 2;

const PART_ROOT: u32 = 3;

/// Where /boot lives: one md raid1 array across all disks, or an independent ext4
/// /boot per disk kept in sync by a hook.
#[derive(Debug, Clone, Copy, PartialEq, Eq, Structural)]
pub enum BootMode {
    Raid,
    Independent,
}

pub struct Layout {
    pub members: Vec<String>,
    pub part_prefix: String,
    pub boot_mode: BootMode,
}

#[verifier::ext_equal]
pub struct LayoutModel {
    pub members: Seq<Seq<char>>,
    pub part_prefix: Seq<char>,
    pub boot_mode: BootMode,
}

impl View for Layout {
    type V = LayoutModel;

    open spec fn view(&self) -> LayoutModel {
        LayoutModel {
            members: texts(self.members@),
            part_prefix: self.part_prefix@,
            boot_mode: self.boot_mode,
        }
    }
}

/// The layout of a configuration.
pub open spec fn layout_of(c: ConfigModel) -> LayoutModel {
    LayoutModel {
        members: c.disks.members,
        part_prefix: c.disks.part_prefix,
        boot_mode: if c.boot.raid {
            BootMode::Raid
        } else {
            BootMode::Independent
        },
    }
}

/// Whether a disk's name ends in a digit (nvme0n1, as against sda).
pub open spec fn ends_in_digit(disk: Seq<char>) -> bool {
    disk.len() > 0 && '0' <= disk.last() <= '9'
}

impl LayoutModel {
    pub open spec fn boot_raid(self) -> bool {
        self.boot_mode == BootMode::Raid
    }

    /// What stands between a disk's name and a partition number: the configured
    /// prefix, or else what the kernel puts there.
    pub open spec fn sep(self, disk: Seq<char>) -> Seq<char> {
        if self.part_prefix.len() > 0 {
            self.part_prefix
        } else if ends_in_digit(disk) {
            "p"@
        } else {
            Seq::empty()
        }
    }

    /// Whether one disk is named as another with the kernel's separator behind it,
    /// so that their partitions share names. No two disks of one machine are.
    pub open spec fn named_as_partition(self, a: Seq<char>, b: Seq<char>) -> bool {
        self.part_prefix.len() == 0 && ends_in_digit(b) && a == b + "p"@
    }

    /// "/dev/<disk><prefix><n>" for a member's nth partition.
    pub open spec fn part(self, disk: Seq<char>, n: nat) -> Seq<char> {
        "/dev/"@ + disk + self.sep(disk) + dec(n)
    }

    /// The nth partition of every member.
    pub open spec fn parts(self, n: nat) -> Seq<Seq<char>> {
        self.members.map_values(|d: Seq<char>| self.part(d, n))
    }

    pub open spec fn esp_devices(self) -> Seq<Seq<char>> {
        self.parts(1)
    }

    pub open spec fn boot_devices(self) -> Seq<Seq<char>> {
        self.parts(2)
    }

    pub open spec fn root_devices(self) -> Seq<Seq<char>> {
        self.parts(3)
    }

    /// Whether `disk` is the first member, which holds the primary esp.
    pub open spec fn esp_is_primary(self, disk: Seq<char>) -> bool {
        self.members.len() > 0 && self.members[0] == disk
    }

    /// The same layout over other members.
    pub open spec fn subset(self, disks: Seq<Seq<char>>) -> LayoutModel {
        LayoutModel { members: disks, ..self }
    }

    /// The dm-crypt mapper name of a disk's root partition, eg. "vda3_crypt".
    pub open spec fn crypt_name(self, disk: Seq<char>) -> Seq<char> {
        disk + self.sep(disk) + dec(3) + "_crypt"@
    }

    pub open spec fn crypt_names(self) -> Seq<Seq<char>> {
        self.members.map_values(|d: Seq<char>| self.crypt_name(d))
    }

    pub open spec fn crypt_device(self, disk: Seq<char>) -> Seq<char> {
        "/dev/mapper/"@ + self.crypt_name(disk)
    }

    pub open spec fn crypt_devices(self) -> Seq<Seq<char>> {
        headed("/dev/mapper/"@, self.crypt_names())
    }

    /// The dm-integrity mapper name of a disk's root partition, eg. "vda3_int".
    pub open spec fn int_name(self, disk: Seq<char>) -> Seq<char> {
        disk + self.sep(disk) + dec(3) + "_int"@
    }

    pub open spec fn int_names(self) -> Seq<Seq<char>> {
        self.members.map_values(|d: Seq<char>| self.int_name(d))
    }

    pub open spec fn int_device_of(self, disk: Seq<char>) -> Seq<char> {
        "/dev/mapper/"@ + self.int_name(disk)
    }

    pub open spec fn int_devices(self) -> Seq<Seq<char>> {
        headed("/dev/mapper/"@, self.int_names())
    }
}

/// The first entry of a list, or the empty text where there is none.
pub open spec fn first_or_empty(v: Seq<Seq<char>>) -> Seq<char> {
    if v.len() > 0 {
        v[0]
    } else {
        Seq::empty()
    }
}

/// A copy of the first entry of a list, or the empty text where there is none.
pub fn first_of(v: &Vec<String>) -> (r: String)
    ensures
        r@ == first_or_empty(texts(v@)),
{
    if v.len() > 0 {
        v[0].clone()
    } else {
        String::new()
    }
}

impl Layout {
    pub fn derive(cfg: &Config) -> (r: Self)
        ensures
            r@ == layout_of(cfg@),
    {
        Self {
            members: copy_texts(&cfg.disks.members),
            part_prefix: cfg.disks.part_prefix.clone(),
            boot_mode: if cfg.boot.raid {
                BootMode::Raid
            } else {
                BootMode::Independent
            },
        }
    }

    pub fn boot_raid(&self) -> (r: bool)
        ensures
            r == self@.boot_raid(),
    {
        self.boot_mode == BootMode::Raid
    }

    /// What stands between a disk's name and a partition number.
    fn sep(&self, disk: &str) -> (r: String)
        ensures
            r@ == self@.sep(disk@),
    {
        if !self.part_prefix.as_str().is_empty() {
            return self.part_prefix.clone();
        }
        let n: usize = disk.unicode_len();
        if n > 0 {
            let last = disk.get_char(n - 1);
            if '0' <= last && last <= '9' {
                return "p".to_owned();
            }
        }
        String::new()
    }

    /// "/dev/<disk><prefix><n>" for a member's nth partition.
    pub fn part(&self, disk: &str, n: u32) -> (r: String)
        ensures
            r@ == self@.part(disk@, n as nat),
    {
        "/dev/".to_owned().concat(disk).concat(self.sep(disk).as_str()).concat(
            decimal(n as u64).as_str(),
        )
    }

    fn parts(&self, n: u32) -> (r: Vec<String>)
        ensures
            texts(r@) == self@.parts(n as nat),
    {
        let ghost want = self@.parts(n as nat);
        let mut out: Vec<String> = Vec::new();
        let mut i: usize = 0;
        while i < self.members.len()
            invariant
                i <= self.members.len(),
                want == self@.parts(n as nat),
                texts(out@) =~= want.take(i as int),
            decreases self.members.len() - i,
        {
            push_text(&mut out, self.part(self.members[i].as_str(), n).as_str());
            i += 1;
        }
        assert(want.take(want.len() as int) =~= want);
        out
    }

    pub fn esp_devices(&self) -> (r: Vec<String>)
        ensures
            texts(r@) == self@.esp_devices(),
    {
        self.parts(PART_ESP)
    }

    pub fn boot_devices(&self) -> (r: Vec<String>)
        ensures
            texts(r@) == self@.boot_devices(),
    {
        self.parts(PART_BOOT)
    }

    pub fn root_devices(&self) -> (r: Vec<String>)
        ensures
            texts(r@) == self@.root_devices(),
    {
        self.parts(PART_ROOT)
    }

    /// Whether `disk` holds the primary esp (the first member); the rest are
    /// mirrors resynced from it.
    pub fn esp_is_primary(&self, disk: &str) -> (r: bool)
        ensures
            r == self@.esp_is_primary(disk@),
    {
        self.members.len() > 0 && same(self.members[0].as_str(), disk)
    }

    /// A layout over a subset of the members (eg. the disks being replaced), with
    /// the same partition prefix and boot mode.
    pub fn subset(&self, disks: &Vec<String>) -> (r: Layout)
        ensures
            r@ == self@.subset(texts(disks@)),
    {
        Layout {
            members: copy_texts(disks),
            part_prefix: self.part_prefix.clone(),
            boot_mode: self.boot_mode,
        }
    }

    /// The dm-crypt mapper name of a member's root partition, eg. "vda3_crypt".
    pub fn crypt_name(&self, disk: &str) -> (r: String)
        ensures
            r@ == self@.crypt_name(disk@),
    {
        disk.to_owned().concat(self.sep(disk).as_str()).concat(
            decimal(PART_ROOT as u64).as_str(),
        ).concat("_crypt")
    }

    pub fn crypt_names(&self) -> (r: Vec<String>)
        ensures
            texts(r@) == self@.crypt_names(),
    {
        let ghost want = self@.crypt_names();
        let mut out: Vec<String> = Vec::new();
        let mut i: usize = 0;
        while i < self.members.len()
            invariant
                i <= self.members.len(),
                want == self@.crypt_names(),
                texts(out@) =~= want.take(i as int),
            decreases self.members.len() - i,
        {
            push_text(&mut out, self.crypt_name(self.members[i].as_str()).as_str());
            i += 1;
        }
        assert(want.take(want.len() as int) =~= want);
        out
    }

    pub fn crypt_devices(&self) -> (r: Vec<String>)
        ensures
            texts(r@) == self@.crypt_devices(),
    {
        head_all("/dev/mapper/", &self.crypt_names())
    }

    pub fn crypt_device(&self, disk: &str) -> (r: String)
        ensures
            r@ == self@.crypt_device(disk@),
    {
        "/dev/mapper/".to_owned().concat(self.crypt_name(disk).as_str())
    }

    pub fn int_device_of(&self, disk: &str) -> (r: String)
        ensures
            r@ == self@.int_device_of(disk@),
    {
        "/dev/mapper/".to_owned().concat(self.int_name(disk).as_str())
    }

    /// The dm-integrity mapper name of a member's root partition, eg. "vda3_int".
    pub fn int_name(&self, disk: &str) -> (r: String)
        ensures
            r@ == self@.int_name(disk@),
    {
        disk.to_owned().concat(self.sep(disk).as_str()).concat(
            decimal(PART_ROOT as u64).as_str(),
        ).concat("_int")
    }

    pub fn int_names(&self) -> (r: Vec<String>)
        ensures
            texts(r@) == self@.int_names(),
    {
        let ghost want = self@.int_names();
        let mut out: Vec<String> = Vec::new();
        let mut i: usize = 0;
        while i < self.members.len()
            invariant
                i <= self.members.len(),
                want == self@.int_names(),
                texts(out@) =~= want.take(i as int),
            decreases self.members.len() - i,
        {
            push_text(&mut out, self.int_name(self.members[i].as_str()).as_str());
            i += 1;
        }
        assert(want.take(want.len() as int) =~= want);
        out
    }

    pub fn int_devices(&self) -> (r: Vec<String>)
        ensures
            texts(r@) == self@.int_devices(),
    {
        head_all("/dev/mapper/", &self.int_names())
    }
}

// ---------------------------------------------------------------------- laws

proof fn tail_equal(a: Seq<char>, b: Seq<char>, tail: Seq<char>)
    requires
        a + tail == b + tail,
    ensures
        a == b,
{
    assert((a + tail).len() == a.len() + tail.len());
    assert((b + tail).len() == b.len() + tail.len());
    assert forall|i: int| 0 <= i < a.len() implies a[i] == b[i] by {
        assert((a + tail)[i] == a[i]);
        assert((b + tail)[i] == b[i]);
    }
    assert(a =~= b);
}

proof fn head_equal(a: Seq<char>, b: Seq<char>, head: Seq<char>)
    requires
        head + a == head + b,
    ensures
        a == b,
{
    assert((head + a).len() == head.len() + a.len());
    assert((head + b).len() == head.len() + b.len());
    assert forall|i: int| 0 <= i < a.len() implies a[i] == b[i] by {
        assert((head + a)[head.len() + i] == a[i]);
        assert((head + b)[head.len() + i] == b[i]);
    }
    assert(a =~= b);
}

proof fn stems_differ(l: LayoutModel, a: Seq<char>, b: Seq<char>)
    requires
        a != b,
        !l.named_as_partition(a, b),
        !l.named_as_partition(b, a),
    ensures
        a + l.sep(a) != b + l.sep(b),
{
    if a + l.sep(a) == b + l.sep(b) {
        if l.sep(a) == l.sep(b) {
            tail_equal(a, b, l.sep(a));
        } else {
            assert(a + Seq::<char>::empty() =~= a);
            assert(b + Seq::<char>::empty() =~= b);
        }
    }
}

/// Two disks never share a partition device of the same number, nor a mapper name.
pub proof fn devices_tell_disks_apart(l: LayoutModel, a: Seq<char>, b: Seq<char>, n: nat)
    requires
        a != b,
        !l.named_as_partition(a, b),
        !l.named_as_partition(b, a),
    ensures
        l.part(a, n) != l.part(b, n),
        l.crypt_name(a) != l.crypt_name(b),
        l.int_name(a) != l.int_name(b),
        l.crypt_device(a) != l.crypt_device(b),
        l.int_device_of(a) != l.int_device_of(b),
{
    stems_differ(l, a, b);
    if l.part(a, n) == l.part(b, n) {
        tail_equal("/dev/"@ + a + l.sep(a), "/dev/"@ + b + l.sep(b), dec(n));
        assert("/dev/"@ + a + l.sep(a) =~= "/dev/"@ + (a + l.sep(a)));
        assert("/dev/"@ + b + l.sep(b) =~= "/dev/"@ + (b + l.sep(b)));
        head_equal(a + l.sep(a), b + l.sep(b), "/dev/"@);
    }
    if l.crypt_name(a) == l.crypt_name(b) || l.crypt_device(a) == l.crypt_device(b) {
        if l.crypt_device(a) == l.crypt_device(b) {
            head_equal(l.crypt_name(a), l.crypt_name(b), "/dev/mapper/"@);
        }
        tail_equal(a + l.sep(a) + dec(3), b + l.sep(b) + dec(3), "_crypt"@);
        tail_equal(a + l.sep(a), b + l.sep(b), dec(3));
    }
    if l.int_name(a) == l.int_name(b) || l.int_device_of(a) == l.int_device_of(b) {
        if l.int_device_of(a) == l.int_device_of(b) {
            head_equal(l.int_name(a), l.int_name(b), "/dev/mapper/"@);
        }
        tail_equal(a + l.sep(a) + dec(3), b + l.sep(b) + dec(3), "_int"@);
        tail_equal(a + l.sep(a), b + l.sep(b), dec(3));
    }
}

/// A valid configuration gives every member partitions and mappings of its own.
pub proof fn valid_layout_has_distinct_devices(c: ConfigModel, n: nat)
    requires
        c.valid(),
        forall|i: int, j: int|
            0 <= i < c.disks.members.len() && 0 <= j < c.disks.members.len()
                ==> !#[trigger] layout_of(c).named_as_partition(
                c.disks.members[i],
                c.disks.members[j],
            ),
    ensures
        layout_of(c).parts(n).no_duplicates(),
        layout_of(c).crypt_names().no_duplicates(),
        layout_of(c).int_names().no_duplicates(),
        layout_of(c).parts(n).len() == c.disks.members.len(),
{
    let l = layout_of(c);
    let m = c.disks.members;
    assert(l.parts(n).len() == m.len());
    assert(l.crypt_names().len() == m.len());
    assert(l.int_names().len() == m.len());
    assert forall|i: int, j: int|
        0 <= i < m.len() && 0 <= j < m.len() && i != j implies #[trigger] l.parts(n)[i]
        != #[trigger] l.parts(n)[j] by {
        assert(!l.named_as_partition(m[i], m[j]) && !l.named_as_partition(m[j], m[i]));
        devices_tell_disks_apart(l, m[i], m[j], n);
    }
    assert forall|i: int, j: int|
        0 <= i < m.len() && 0 <= j < m.len() && i != j implies #[trigger] l.crypt_names()[i]
        != #[trigger] l.crypt_names()[j] by {
        assert(!l.named_as_partition(m[i], m[j]) && !l.named_as_partition(m[j], m[i]));
        devices_tell_disks_apart(l, m[i], m[j], n);
    }
    assert forall|i: int, j: int|
        0 <= i < m.len() && 0 <= j < m.len() && i != j implies #[trigger] l.int_names()[i]
        != #[trigger] l.int_names()[j] by {
        assert(!l.named_as_partition(m[i], m[j]) && !l.named_as_partition(m[j], m[i]));
        devices_tell_disks_apart(l, m[i], m[j], n);
    }
}

/// A layout over other members names every disk's devices as the whole layout does.
pub proof fn subset_keeps_names(l: LayoutModel, disks: Seq<Seq<char>>, d: Seq<char>, n: nat)
    ensures
        l.subset(disks).part(d, n) == l.part(d, n),
        l.subset(disks).crypt_name(d) == l.crypt_name(d),
        l.subset(disks).int_name(d) == l.int_name(d),
        l.subset(disks).boot_raid() == l.boot_raid(),
{
}

/// How the devices of a disk are named: its partitions behind the separator that its name
/// asks for, its mappings after its root partition.
pub proof fn devices_are_named_after_the_disk(l: LayoutModel, d: Seq<char>, n: nat)
    ensures
        l.part_prefix.len() > 0 ==> l.part(d, n) == "/dev/"@ + d + l.part_prefix + dec(n),
        l.part_prefix.len() == 0 && d.len() > 0 && '0' <= d.last() <= '9' ==> l.part(d, n)
            == "/dev/"@ + d + "p"@ + dec(n),
        l.part_prefix.len() == 0 && !(d.len() > 0 && '0' <= d.last() <= '9') ==> l.part(d, n)
            == "/dev/"@ + d + dec(n),
        "/dev/"@ + l.crypt_name(d) == l.part(d, 3) + "_crypt"@,
        "/dev/"@ + l.int_name(d) == l.part(d, 3) + "_int"@,
        l.crypt_device(d) == "/dev/mapper/"@ + l.crypt_name(d),
        l.int_device_of(d) == "/dev/mapper/"@ + l.int_name(d),
{
    assert("/dev/"@ + d + Seq::<char>::empty() =~= "/dev/"@ + d);
    assert("/dev/"@ + l.crypt_name(d) =~= l.part(d, 3) + "_crypt"@);
    assert("/dev/"@ + l.int_name(d) =~= l.part(d, 3) + "_int"@);
}

/// The devices of a layout stand in the order of its members.
pub proof fn devices_follow_the_members(l: LayoutModel, k: int)
    requires
        0 <= k < l.members.len(),
    ensures
        l.esp_devices().len() == l.members.len() && l.esp_devices()[k] == l.part(l.members[k], 1),
        l.boot_devices().len() == l.members.len() && l.boot_devices()[k] == l.part(
            l.members[k],
            2,
        ),
        l.root_devices().len() == l.members.len() && l.root_devices()[k] == l.part(
            l.members[k],
            3,
        ),
        l.crypt_devices().len() == l.members.len() && l.crypt_devices()[k] == "/dev/mapper/"@
            + l.crypt_name(l.members[k]),
        l.int_devices().len() == l.members.len() && l.int_devices()[k] == "/dev/mapper/"@
            + l.int_name(l.members[k]),
        l.esp_is_primary(l.members[k]) <==> l.members[k] == l.members[0],
{
    assert(l.crypt_names()[k] == l.crypt_name(l.members[k]));
    assert(l.int_names()[k] == l.int_name(l.members[k]));
}

/// A layout has the disks of the configuration and boots as it says.
pub proof fn a_layout_follows_the_configuration(c: ConfigModel)
    ensures
        layout_of(c).members == c.disks.members,
        layout_of(c).part_prefix == c.disks.part_prefix,
        layout_of(c).boot_mode is Raid <==> c.boot.raid,
{
}

} // verus!

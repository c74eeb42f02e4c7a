use raiden::config::Config;
use raiden::layout::Layout;

fn layout_with(members: &[&str], prefix: &str) -> Layout {
    let mut c = Config::default();
    c.disks.members = members.iter().map(|s| s.to_string()).collect();
    c.disks.part_prefix = prefix.to_string();
    Layout::derive(&c)
}

#[test]
fn esp_primary_is_the_first_member() {
    let l = layout_with(&["vda", "vdb", "vdc"], "");
    // the primary esp (mounted at /boot/efi) is the first member's p1; the
    // others are mirrors, synced from it.
    assert_eq!(l.esp_devices(), ["/dev/vda1", "/dev/vdb1", "/dev/vdc1"]);
    assert!(l.esp_is_primary("vda"));
    assert!(!l.esp_is_primary("vdb"));
    assert!(!l.boot_raid()); // default config is independent
}

#[test]
fn boot_mode_and_subset_follow_config() {
    let mut c = Config::default();
    c.disks.members = vec!["vda".into(), "vdb".into()];
    c.boot.raid = true;
    let l = Layout::derive(&c);
    assert!(l.boot_raid());
    assert!(l.subset(&vec!["vdb".into()]).boot_raid());
}

#[test]
fn crypt_names_follow_root_partition() {
    let l = layout_with(&["vda", "vdb"], "");
    assert_eq!(l.crypt_names(), ["vda3_crypt", "vdb3_crypt"]);
}

#[test]
fn nvme_prefix_applies_to_partitions() {
    let l = layout_with(&["nvme0n1"], "p");
    assert_eq!(l.part("nvme0n1", 3), "/dev/nvme0n1p3");
    assert_eq!(l.crypt_name("nvme0n1"), "nvme0n1p3_crypt");
}

#[test]
fn mixed_disks_follow_the_kernel_rule() {
    let l = layout_with(&["nvme0n1", "sda"], "");
    assert_eq!(l.boot_devices(), ["/dev/nvme0n1p2", "/dev/sda2"]);
    assert_eq!(l.root_devices(), ["/dev/nvme0n1p3", "/dev/sda3"]);
}

#[test]
fn mapper_devices_are_named_after_the_root_partition() {
    let l = layout_with(&["vda"], "");
    assert_eq!(l.crypt_devices(), ["/dev/mapper/vda3_crypt"]);
    assert_eq!(l.int_names(), ["vda3_int"]);
    assert_eq!(l.int_device_of("vda"), "/dev/mapper/vda3_int");
}

#[test]
fn devices_of_different_disks_differ() {
    let l = layout_with(&["vda", "vdb"], "");
    assert_ne!(l.part("vda", 1), l.part("vdb", 1));
    assert_ne!(l.crypt_name("vda"), l.crypt_name("vdb"));
}

use raiden::config::Config;
use raiden::layout::Layout;
use raiden::recover::{is_mounted, open_recovery, outcome, preview, Opening};
use raiden::stack::{self, RecoverAction, Stack};

fn actions_for(stack_id: &str, members: &[&str]) -> Vec<RecoverAction> {
    let mut cfg = Config::default();
    cfg.raid.stack = stack_id.to_string();
    cfg.disks.members = members.iter().map(|s| s.to_string()).collect();
    let layout = Layout::derive(&cfg);
    let s = stack::select(stack_id).ok().unwrap();
    s.recover_actions(&cfg, &layout, "/root")
}

/// the flattened command lines of an action set, for asserting content.
fn commands(actions: &[RecoverAction]) -> Vec<String> {
    actions
        .iter()
        .flat_map(|a| a.steps.iter())
        .flat_map(|s| s.describe())
        .collect()
}

#[test]
fn md_recovers_by_running_the_array_and_mounting_lvm() {
    let cmds = commands(&actions_for(
        raiden::config::STACK_MD_LVM_EXT4,
        &["vda", "vdb"],
    ));
    let joined = cmds.join("\n");
    assert!(joined.contains("mdadm --run /dev/md/root"));
    assert!(joined.contains("mount /dev/vg0/root /root"));
}

#[test]
fn btrfs_recovers_with_a_degraded_mount_at_the_target() {
    let cmds = commands(&actions_for(raiden::config::STACK_BTRFS, &["vda", "vdb"]));
    let joined = cmds.join("\n");
    assert!(joined.contains("device scan"));
    // a degraded mount from a crypt member, at the requested target.
    assert!(joined.contains("mount -o degraded"));
    assert!(joined.contains("/dev/mapper/vda3_crypt"));
    // no `mountpoint`: it is absent in the initramfs (the step would log a
    // spurious failure), and recover already verifies via is_mounted.
    assert!(!joined.contains("mountpoint"));
}

#[test]
fn bcachefs_recovers_with_a_degraded_mount_without_mountpoint() {
    let cmds = commands(&actions_for(raiden::config::STACK_BCACHEFS, &["vda", "vdb"]));
    let joined = cmds.join("\n");
    assert!(joined.contains("-o degraded"));
    assert!(!joined.contains("mountpoint"));
}

#[test]
fn zfs_recovers_by_force_importing_then_mounting_the_dataset() {
    let cmds = commands(&actions_for(raiden::config::STACK_ZFS, &["vda", "vdb"]));
    let joined = cmds.join("\n");
    assert!(joined.contains("zpool import -f -N -R /root rpool"));
    assert!(joined.contains("zfs mount rpool/ROOT/debian"));
}

#[test]
fn a_mount_point_stands_in_the_second_field() {
    let mounts = "proc /proc proc rw 0 0\n/dev/vg0/root /root ext4 rw 0 0\n";
    assert!(is_mounted(mounts, "/root"));
    assert!(!is_mounted(mounts, "/dev/vg0/root"));
    assert!(!is_mounted("", "/root"));
}

#[test]
fn a_mounted_root_is_left_alone() {
    assert_eq!(open_recovery(true, true), Opening::Preview);
    assert_eq!(open_recovery(false, true), Opening::Mounted);
    assert_eq!(open_recovery(false, false), Opening::Recover);
}

#[test]
fn the_verdict_is_the_mount() {
    assert_eq!(
        outcome(false, "/root"),
        Err("recover: root is still not mounted at /root".to_string())
    );
    assert!(outcome(true, "/root").is_ok_and(|s| s.contains("exit the shell")));
}

#[test]
fn the_preview_numbers_the_actions() {
    let actions = actions_for(raiden::config::STACK_ZFS, &["vda"]);
    let lines = preview(&actions, "/root");
    assert_eq!(lines[0], "# recovery flow: bring the root online at /root\n");
    assert_eq!(lines[1], format!("[1] {}", actions[0].label));
    assert!(lines.contains(&format!("[2] {}", actions[1].label)));
    assert_eq!(lines[lines.len() - 1], "");
}

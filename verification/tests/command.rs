use raiden::command::{
    auto_root_password, choose_disks, destructive_warning, device_lines, filter_phases,
    install_needs_confirmation, install_warning, layout_lines, mount_point, needs_confirmation,
    obtain_password, phase_flags_agree, plan_swap,
    remove_scope, replace_scope, require_installed, resolve_config, saves_manifest, ConfigSource,
    PasswordSource, SwapError,
};
use raiden::config::Config;
use raiden::layout::Layout;
use raiden::ops::ReplaceParts;
use raiden::step::Phase;

fn words(v: &[&str]) -> Vec<String> {
    v.iter().map(|s| s.to_string()).collect()
}

fn some(s: &str) -> Option<String> {
    Some(s.to_string())
}

fn phases() -> Vec<Phase> {
    ["a", "b", "c", "b"].iter().map(|n| Phase::new(n, vec![])).collect()
}

fn names(v: &[Phase]) -> Vec<&str> {
    v.iter().map(|p| p.name.as_str()).collect()
}

#[test]
fn a_run_is_restricted_to_phases() {
    let f = |from: Option<String>, only: Option<String>| filter_phases(phases(), &from, &only);
    assert_eq!(names(&f(None, None).ok().unwrap()), ["a", "b", "c", "b"]);
    assert_eq!(names(&f(some("b"), None).ok().unwrap()), ["b", "c", "b"]);
    assert_eq!(names(&f(None, some("b")).ok().unwrap()), ["b", "b"]);
    // a single phase wins over a suffix.
    assert_eq!(names(&f(some("a"), some("c")).ok().unwrap()), ["c"]);
    assert_eq!(f(some("x"), None).err().unwrap().name, "x");
    assert_eq!(f(None, some("y")).err().unwrap().name, "y");
}

#[test]
fn a_resumed_run_takes_no_phase_flags() {
    assert!(phase_flags_agree(true, &None, &None));
    assert!(phase_flags_agree(false, &some("a"), &None));
    assert!(!phase_flags_agree(true, &some("a"), &None));
    assert!(!phase_flags_agree(true, &None, &some("a")));
}

#[test]
fn a_mutation_needs_an_installed_system() {
    assert!(!require_installed(false, false));
    assert!(require_installed(true, false));
    assert!(require_installed(false, true));
    assert_eq!(resolve_config(true), ConfigSource::Manifest);
    assert_eq!(resolve_config(false), ConfigSource::File);
}

#[test]
fn the_password_comes_from_file_environment_or_prompt() {
    let given = |p: PasswordSource| match p {
        PasswordSource::Given(s) => s,
        PasswordSource::Prompt { verify } => format!("prompt {verify}"),
    };
    assert_eq!(given(obtain_password("install", &some("pw\r\n"), &some("env"))), "pw");
    assert_eq!(given(obtain_password("install", &None, &some("env"))), "env");
    assert_eq!(given(obtain_password("install", &None, &some(""))), "prompt true");
    assert_eq!(given(obtain_password("replace", &None, &None)), "prompt true");
    assert_eq!(given(obtain_password("rescue", &None, &None)), "prompt false");
    assert!(auto_root_password(&some("f"), &None));
    assert!(auto_root_password(&None, &some("x")));
    assert!(!auto_root_password(&None, &some("")));
}

#[test]
fn a_swap_replaces_members_by_position() {
    let members = words(&["vda", "vdb", "vdc"]);
    let swap = |a: &[&str], b: &[&str]| plan_swap(&members, &words(a), &words(b));
    assert_eq!(
        swap(&["vdc", "vda"], &["sdc", "sda"]).ok().unwrap(),
        ["sda", "vdb", "sdc"]
    );
    assert!(matches!(swap(&["vda"], &[]), Err(SwapError::Unpaired(1, 0))));
    assert!(matches!(swap(&["sdz"], &["sda"]), Err(SwapError::NotMember(d)) if d == "sdz"));
    assert!(matches!(swap(&["vda"], &["vdb"]), Err(SwapError::AlreadyMember(d)) if d == "vdb"));
    assert!(matches!(swap(&["vda"], &["vda"]), Err(SwapError::AlreadyMember(d)) if d == "vda"));
}

#[test]
fn scopes_name_the_disks_and_layers() {
    let parts = ReplaceParts::from_flags(true, true, false);
    assert_eq!(
        replace_scope(&words(&["vda", "vdb"]), &some("sdc,sdd"), &parts),
        "disks=vda,vdb with=sdc,sdd esp=true boot=true root=false"
    );
    assert_eq!(remove_scope(&words(&["vda"])), "disks=vda");
    assert!(saves_manifest("replace", true));
    assert!(!saves_manifest("replace", false));
    assert!(!saves_manifest("install", true));
}

#[test]
fn warnings_name_what_is_erased() {
    let mut c = Config::default();
    c.disks.members = words(&["vda", "vdb"]);
    assert_eq!(
        install_warning(&c),
        [
            "WARNING: install will ERASE all data on: vda, vdb",
            "  stack dm-crypt~md~lvm~ext4 level 6 (aegis128-plain64)"
        ]
    );
    assert!(destructive_warning("remove").starts_with("WARNING: remove is destructive"));
    assert!(install_needs_confirmation(false, false));
    assert!(!install_needs_confirmation(true, false));
    assert!(!install_needs_confirmation(false, true));
}

#[test]
fn the_layout_is_shown() {
    let mut c = Config::default();
    c.disks.members = words(&["vda", "nvme0n1"]);
    let l = Layout::derive(&c);
    let v = layout_lines(&l);
    assert_eq!(v[1], "members:      vda, nvme0n1");
    assert_eq!(v[3], "boot devices: /dev/vda2, /dev/nvme0n1p2");
    assert_eq!(v[7], "crypt names:  vda3_crypt, nvme0n1p3_crypt");
    assert_eq!(
        device_lines(&l)[2],
        "  nvme0n1: esp /dev/nvme0n1p1, boot /dev/nvme0n1p2, root /dev/nvme0n1p3"
    );
    assert_eq!(mount_point(true, "/"), "/");
    assert_eq!(mount_point(false, "/"), "/mnt");
}

#[test]
fn refused_swaps_and_phases_are_explained() {
    assert_eq!(
        SwapError::Unpaired(2, 1).message(),
        "--disks has 2 entr{y,ies} but --with has 1; they must pair 1:1"
    );
    assert_eq!(
        SwapError::NotMember("sdx".into()).message(),
        "\"sdx\" is not a configured member disk"
    );
    assert_eq!(
        SwapError::AlreadyMember("sda".into()).message(),
        "\"sda\" is already a member; --with names new disks"
    );
    let e = filter_phases(phases(), &some("nope"), &None).err().unwrap();
    assert_eq!(
        e.message(),
        "unknown phase \"nope\"; see `raiden install --list-phases`"
    );
}

#[test]
fn the_disks_of_a_replace_are_chosen() {
    let members = words(&["sda", "sdb", "sdc"]);
    let r = choose_disks(&members, &words(&["sdb"]), &None).ok().unwrap();
    assert_eq!(r.members, ["sda", "sdb", "sdc"]);
    assert_eq!(r.provision, ["sdb"]);
    assert_eq!(r.leaving, None);
    let r = choose_disks(&members, &words(&["sdb", "sda"]), &some(" sdx, sdy"))
        .ok()
        .unwrap();
    assert_eq!(r.members, ["sdy", "sdx", "sdc"]);
    assert_eq!(r.provision, ["sdx", "sdy"]);
    assert_eq!(r.leaving, Some(words(&["sdb", "sda"])));
    assert!(matches!(
        choose_disks(&members, &words(&["sdb"]), &some("")),
        Err(SwapError::Unpaired(1, 0))
    ));
    assert!(matches!(
        choose_disks(&members, &words(&["sdz"]), &some("sdx")),
        Err(SwapError::NotMember(d)) if d == "sdz"
    ));
    assert!(matches!(
        choose_disks(&members, &words(&["sdb"]), &some("sda")),
        Err(SwapError::AlreadyMember(d)) if d == "sda"
    ));
}

#[test]
fn taking_disks_out_of_service_is_confirmed() {
    for op in ["replace", "remove"] {
        assert!(needs_confirmation(op, false));
        assert!(!needs_confirmation(op, true));
    }
    for op in ["scrub", "rescue", "mount", "close", ""] {
        assert!(!needs_confirmation(op, false));
    }
}

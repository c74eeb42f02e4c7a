use raiden::config::Config;
use raiden::manifest::{self, Manifest};
use raiden::state::{self, State};

#[test]
fn a_manifest_holds_the_config() {
    let mut cfg = Config::default();
    cfg.disks.members = vec!["vda".into(), "vdb".into(), "vdc".into()];
    let back = Manifest::from_config(&cfg);
    assert_eq!(back.config.disks.members, cfg.disks.members);
    let back = State::from_config(&cfg);
    assert_eq!(back.config.disks.members, cfg.disks.members);
    assert!(Manifest::default().config.disks.members.is_empty());
    assert!(State::default().config.disks.members.is_empty());
}

#[test]
fn the_copy_on_boot_is_canonical() {
    let text = |s: &str| Some(s.to_string());
    assert_eq!(
        Manifest::load(text("boot"), text("etc")),
        Some((manifest::BOOT_MIRROR_PATH, "boot".to_string()))
    );
    assert_eq!(
        Manifest::load(None, text("etc")),
        Some((manifest::DEFAULT_PATH, "etc".to_string()))
    );
    assert_eq!(Manifest::load(None, None), None);
    assert!(Manifest::present(true, false) && Manifest::present(false, true));
    assert!(!Manifest::present(false, false));
}

#[test]
fn both_copies_are_written() {
    let v = Manifest::save();
    assert_eq!(v[0].path, "/etc/raiden/manifest.toml");
    assert_eq!(v[0].tmp, "/etc/raiden/manifest.toml.tmp");
    assert!(v[0].required);
    assert_eq!(v[1].path, "/boot/raiden/manifest.toml");
    assert!(!v[1].required);
    assert_eq!(
        State::save(),
        [(state::DEFAULT_PATH, true), (state::BOOT_MIRROR_PATH, false)]
    );
}

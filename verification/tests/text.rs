use raiden::cli::{overrides_from, Global, SyncTarget};
use raiden::efi;
use raiden::sorted::{insert_sorted, less};
use raiden::text::{
    after_prefix, contains, cut, decimal, ends_with, join, number, pad_left, pad_right, parse_int,
    parse_number, split_fields, split_lines, starts_with, trim, Sep,
};

#[test]
fn numbers_are_spelled_and_read() {
    assert_eq!(decimal(0), "0");
    assert_eq!(decimal(18446744073709551615), "18446744073709551615");
    assert_eq!(number(0o755, 8), "755");
    assert_eq!(parse_number("+42"), Some(42));
    assert_eq!(parse_number("18446744073709551616"), None);
    assert_eq!(parse_number(""), None);
    assert_eq!(parse_int("-9223372036854775808"), Some(i64::MIN));
    assert_eq!(parse_int("9223372036854775808"), None);
    assert_eq!(parse_int("4 2"), None);
}

#[test]
fn texts_are_cut_like_the_standard_library_does() {
    for s in ["", "a", "a\n", "a\r\nb", "\n\n", "a\rb\r", " \t a  b\u{a0}c \n"] {
        let want: Vec<&str> = s.lines().collect();
        assert_eq!(split_lines(s), want, "{s:?}");
        let want: Vec<&str> = s.split_whitespace().collect();
        assert_eq!(split_fields(s), want, "{s:?}");
        assert_eq!(trim(s), s.trim(), "{s:?}");
        let want: Vec<&str> = s.split('a').collect();
        assert_eq!(cut(s, Sep::Is('a')), want, "{s:?}");
    }
}

#[test]
fn parts_are_found_and_padded() {
    assert!(contains("abcabd", "abd") && !contains("abc", "abd") && contains("a", ""));
    assert!(starts_with("abc", "ab") && !starts_with("a", "ab"));
    assert!(ends_with("abc", "bc") && !ends_with("c", "bc"));
    assert_eq!(after_prefix("UUID=x", "UUID="), Some("x".to_string()));
    assert_eq!(after_prefix("x", "UUID="), None);
    assert_eq!(pad_left("7".to_string(), 3, '0'), "007");
    assert_eq!(pad_right("ab", 4), "ab  ");
    assert_eq!(join(&vec!["a".into(), "b".into()], ", "), "a, b");
}

#[test]
fn lists_stay_sorted_and_distinct() {
    let mut v: Vec<String> = vec![];
    for s in ["b", "a", "b", "10", "9", ""] {
        insert_sorted(&mut v, s);
    }
    assert_eq!(v, ["", "10", "9", "a", "b"]);
    assert!(less("10", "9") && !less("a", "a") && less("a", "ab"));
}

#[test]
fn the_flags_become_overrides() {
    let g = Global {
        config: "raiden.toml".into(),
        dry_run: false,
        yes: false,
        resume: false,
        password_file: None,
        verbose: false,
        stack: None,
        level: Some("5".into()),
        members: Some("vda,vdb".into()),
        release: None,
    };
    let o = overrides_from(&g);
    assert_eq!(o.level, Some("5".to_string()));
    assert_eq!(o.disks, Some(vec!["vda".to_string(), "vdb".to_string()]));
    assert!(o.stack.is_none() && o.release.is_none());
    assert!(SyncTarget::Boot { force: true }.force());
    assert!(!SyncTarget::Efi { force: false }.force());
}

#[test]
fn the_bootloader_has_one_form() {
    assert_eq!(
        efi::register_argv("vda").join(" "),
        "efibootmgr -c -g -d /dev/vda -p 1 -L debian-vda -l \\EFI\\debian\\shimx64.efi"
    );
    assert_eq!(
        efi::mkfs_esp_argv("/dev/vda1", None).join(" "),
        "mkfs.msdos -F 32 -s 1 -n EFI /dev/vda1"
    );
    assert_eq!(
        efi::grub_debconf_selections(),
        "grub-efi-amd64 grub2/force_efi_extra_removable boolean true\ngrub-efi-amd64 grub2/update_nvram boolean false\n"
    );
}

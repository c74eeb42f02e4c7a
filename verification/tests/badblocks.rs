use raiden::badblocks::{
    array_range_to_blocks, describe_event, describe_paths, event_from, icheck_argv,
    icheck_inodes, integrity_messages, lv_affine, md_geometry, member_data_offset, ncheck_argv,
    ncheck_paths, parse_read_errors, report, stripe_blocks, stripe_range, Affine, Event,
    Geometry, Next, ReportItem, Walk,
};

// the kernel logs correctable errors as "(N sectors at S on dev)".
#[test]
fn parses_correctable_error() {
    let dm = "[ 99.9] md/raid:md127: read error corrected (8 sectors at 12345 on dm-3)";
    let evs = parse_read_errors(dm);
    assert_eq!(evs.len(), 1);
    assert!(!evs[0].uncorrected);
    assert_eq!(evs[0].sector, 12345);
    assert_eq!(evs[0].dev, "dm-3");
}

// raid5/raid6 log the uncorrectable cases as "(sector S on dev)" -- no count.
// these are the events that actually lost data and whose files matter.
#[test]
fn parses_uncorrectable_not_corrected() {
    let dm = "[ 99.9] md/raid:md127: read error NOT corrected!! (sector 12345 on dm-3).";
    let evs = parse_read_errors(dm);
    assert_eq!(evs.len(), 1, "uncorrectable message must be recognized");
    assert!(evs[0].uncorrected);
    assert_eq!(evs[0].sector, 12345);
    assert_eq!(evs[0].dev, "dm-3");
}

#[test]
fn parses_uncorrectable_not_correctable() {
    let dm = "[ 99.9] md/raid:md127: read error not correctable (sector 999 on dm-4).";
    let evs = parse_read_errors(dm);
    assert_eq!(evs.len(), 1);
    assert!(evs[0].uncorrected);
    assert_eq!(evs[0].sector, 999);
    assert_eq!(evs[0].dev, "dm-4");
}

// real ring-buffer excerpt: the same two errors repeat hundreds of times and
// must collapse to one event each, both flagged uncorrectable.
#[test]
fn dedups_repeated_real_world_errors() {
    let dm = "\
[  388.898430] md/raid:md126: read error not correctable (sector 2264064 on dm-1).
[  388.899777] md/raid:md126: read error not correctable (sector 2375328 on dm-1).
[  388.901054] md/raid:md126: read error not correctable (sector 2264064 on dm-1).
[  393.900851] md/raid:md126: read error not correctable (sector 2375328 on dm-1).";
    let evs = parse_read_errors(dm);
    assert_eq!(evs.len(), 2);
    assert!(evs.iter().all(|e| e.uncorrected && e.dev == "dm-1"));
    let mut sectors: Vec<i64> = evs.iter().map(|e| e.sector).collect();
    sectors.sort();
    assert_eq!(sectors, [2264064, 2375328]);
}

// a corrected error and an uncorrectable one in the same buffer.
#[test]
fn mixed_buffer_flags_each_kind() {
    let dm = "\
md/raid:md0: read error corrected (8 sectors at 100 on dm-2)
md/raid:md0: read error NOT corrected!! (sector 200 on dm-3).";
    let evs = parse_read_errors(dm);
    assert_eq!(evs.len(), 2);
    let corrected = evs.iter().find(|e| !e.uncorrected).unwrap();
    assert_eq!((corrected.sector, corrected.nsectors), (100, 8));
    let bad = evs.iter().find(|e| e.uncorrected).unwrap();
    assert_eq!(bad.sector, 200);
}

#[test]
fn other_lines_report_nothing() {
    assert!(parse_read_errors("md0: read error somewhere\nusb 1-1: reset\n").is_empty());
}

#[test]
fn an_event_is_read_from_its_groups() {
    let g = |kind: &str, n: Option<&str>, s: &str| {
        vec![
            Some("whole".to_string()),
            Some(kind.to_string()),
            n.map(String::from),
            Some(s.to_string()),
            Some("dm-1".to_string()),
        ]
    };
    let e = event_from(&g("corrected", Some("8"), "100")).unwrap();
    assert!(!e.uncorrected);
    assert_eq!((e.nsectors, e.sector), (8, 100));
    // no count is one sector; a number that cannot be held is the default.
    let e = event_from(&g("NOT corrected", None, "99999999999999999999")).unwrap();
    assert!(e.uncorrected);
    assert_eq!((e.nsectors, e.sector), (1, 0));
    assert!(event_from(&vec![None]).is_none());
}

#[test]
fn geometry_by_raid_level() {
    let g = |level: &str| {
        let g = md_geometry(level, "5", "524288").unwrap();
        (g.chunk_sectors, g.data_disks)
    };
    assert_eq!(g("raid0"), (1024, 5));
    assert_eq!(g("raid5"), (1024, 4));
    assert_eq!(g("raid6"), (1024, 3));
    assert_eq!(g("raid10"), (1024, 2));
    assert_eq!(g("raid1"), (0, 1));
    assert_eq!(g("linear"), (1024, 0));
    assert!(md_geometry("raid5", "x", "1").is_none());
    assert!(md_geometry("raid6", "-9223372036854775808", "1").is_none());
}

#[test]
fn the_data_offset_of_a_member() {
    let some = |s: &str| Some(s.to_string());
    assert_eq!(member_data_offset(&some("2048"), &vec![]), 2048);
    assert_eq!(member_data_offset(&some("x"), &vec!["7".into()]), 0);
    assert_eq!(member_data_offset(&None, &vec!["7".into(), "9".into()]), 7);
    assert_eq!(member_data_offset(&None, &vec![]), 0);
}

#[test]
fn the_stripe_of_a_sector() {
    let g = |c: i64, d: i64| Geometry {
        chunk_sectors: c,
        data_disks: d,
    };
    // sector 5000 behind an offset of 2048 lies in chunk 2 of 1024 sectors.
    assert_eq!(stripe_range(5000, 2048, &g(1024, 3)), Some((6144, 9216)));
    assert_eq!(stripe_range(10, 2048, &g(1024, 3)), Some((0, 3072)));
    assert_eq!(stripe_range(5000, 0, &g(0, 1)), None);
    assert_eq!(stripe_range(5000, 0, &g(1024, 0)), None);
    assert_eq!(stripe_range(i64::MAX, i64::MIN, &g(1, i64::MAX)), None);
}

#[test]
fn blocks_are_clamped_to_the_volume() {
    let a = Affine {
        offset: 2048,
        lv_sectors: 100,
    };
    assert_eq!(array_range_to_blocks(2048, 2064, &a), [0, 1]);
    assert_eq!(array_range_to_blocks(2060, 2061, &a), [1]);
    assert_eq!(array_range_to_blocks(0, 1 << 40, &a).len(), 13);
    assert!(array_range_to_blocks(0, 2048, &a).is_empty());
    assert!(array_range_to_blocks(1 << 30, 1 << 31, &a).is_empty());
}

#[test]
fn the_walk_down_to_the_array() {
    let start = Walk {
        offset: 0,
        lv_sectors: 0,
    };
    match lv_affine(&start, "0 41943040 linear 254:2 2048\n", "9:127") {
        Next::Below(under, w) => {
            assert_eq!(under, "254:2");
            assert_eq!((w.offset, w.lv_sectors), (2048, 41943040));
            let table = "0 999 crypt aes-xts-plain64 :64:logon:k 0 9:127 32768";
            match lv_affine(&w, table, "9:127") {
                Next::Reached(a) => assert_eq!((a.offset, a.lv_sectors), (34816, 41943040)),
                _ => panic!("the array is not reached"),
            }
        }
        _ => panic!("no device below"),
    }
    let unknown = |t: &str| matches!(lv_affine(&start, t, "9:127"), Next::Unknown);
    assert!(unknown("0 1 linear 9:127 0\n1 1 linear 9:127 8\n"));
    assert!(unknown("8 1 linear 9:127 0"));
    assert!(unknown("0 1 striped 2 128 9:127 0"));
    assert!(unknown("0 1 linear 9:127"));
    assert!(unknown(""));
}

fn words(v: &[&str]) -> Vec<String> {
    v.iter().map(|s| s.to_string()).collect()
}

#[test]
fn debugfs_is_asked_for_inodes_and_paths() {
    assert_eq!(
        icheck_argv(&vec![7, 8]),
        Some(words(&["debugfs", "-R", "icheck 7 8", "/dev/vg0/root"]))
    );
    assert_eq!(icheck_argv(&vec![]), None);
    assert_eq!(icheck_argv(&vec![-12]).unwrap()[2], "icheck -12");
    assert_eq!(
        ncheck_argv(&words(&["12", "13"])),
        Some(words(&["debugfs", "-R", "ncheck 12 13", "/dev/vg0/root"]))
    );
    assert_eq!(ncheck_argv(&vec![]), None);
    let answer = "Block\tInode number\n7\t13\n8\t12\n9\t<block not found>\n10\t13\n";
    assert_eq!(icheck_inodes(answer), ["12", "13"]);
    let answer = "Inode\tPathname\n13\t/var/log/sys log\n12\t/etc/fstab\nx\t/no\n14\n";
    assert_eq!(ncheck_paths(answer), ["/etc/fstab", "/var/log/sys log"]);
}

#[test]
fn the_report_names_the_files_of_lost_data_only() {
    let ev = |uncorrected: bool| Event {
        uncorrected,
        nsectors: 8,
        sector: 100,
        dev: "dm-1".into(),
    };
    assert_eq!(
        describe_event(&ev(true)),
        "  member dm-1 sector 100: unrecoverable -- restore from backup"
    );
    assert_eq!(
        describe_event(&ev(false)),
        "  member dm-1 sector 100 (8 sectors): repaired by md from redundancy -- data intact"
    );
    let items = report(&vec![ev(false), ev(true)], true);
    assert_eq!(items.len(), 4);
    assert!(matches!(&items[3], ReportItem::Files { sector: 100, dev } if dev == "dm-1"));
    let items = report(&vec![ev(true)], false);
    assert!(matches!(&items[2], ReportItem::Line(s) if s.contains("file mapping unavailable")));
    let items = report(&vec![], true);
    assert!(matches!(&items[1], ReportItem::Line(s) if s == "  none recorded in the kernel ring buffer"));
    assert_eq!(describe_paths(&words(&["/etc/fstab"])), ["      /etc/fstab"]);
    assert!(describe_paths(&vec![])[0].contains("no file in this stripe"));
}

#[test]
fn messages_of_the_integrity_layer() {
    let ring = "a\n[1] device-mapper: integrity: dm-0: checksum failed\n[2] device-mapper: crypt: dm-1: error\n";
    assert_eq!(
        integrity_messages(ring),
        [
            "integrity layer messages:",
            "  [1] device-mapper: integrity: dm-0: checksum failed",
            "  [2] device-mapper: crypt: dm-1: error"
        ]
    );
    assert_eq!(integrity_messages("a\n"), ["integrity layer messages:", "  none"]);
}

#[test]
fn a_lost_sector_leads_to_the_blocks_of_its_stripe() {
    let g = Geometry {
        data_disks: 2,
        chunk_sectors: 16,
    };
    let a = Affine {
        offset: 8,
        lv_sectors: 1000,
    };
    // the second stripe: array sectors 32 to 63, volume sectors 24 to 55.
    assert_eq!(stripe_blocks(120, 100, &g, &a), Some(vec![3, 4, 5, 6]));
    // the first stripe is cut off at the start of the volume.
    assert_eq!(stripe_blocks(100, 100, &g, &a), Some(vec![0, 1, 2]));
    let none = Geometry {
        data_disks: 2,
        chunk_sectors: 0,
    };
    assert_eq!(stripe_blocks(120, 100, &none, &a), None);
}

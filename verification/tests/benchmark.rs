use raiden::benchmark::{
    json_line, parse_pass, pass_line, plan, table_lines, wants_json, Bench, ModeText,
};
use raiden::cli::BenchmarkArgs;
use raiden::config::Config;

const SAMPLE: &str = "\
File operations:
    reads/s:                      0.00
    writes/s:                     405.12
Throughput:
    written, MiB/s:               6.33
Latency (ms):
         min:                                    0.12
         avg:                                    2.46
         max:                                   41.10
         95th percentile:                       37.56
         sum:                                12345.67
General statistics:
    total time:                          142.0123s
    total number of events:              5000
";

#[test]
fn parses_total_time_and_p95() {
    let pass = parse_pass(SAMPLE).unwrap();
    let total: f64 = pass.total.parse().unwrap();
    let p95: f64 = pass.p95.parse().unwrap();
    assert!((total - 142.0123).abs() < 1e-6, "total={total}");
    assert!((p95 - 37.56).abs() < 1e-6, "p95={p95}");
}

#[test]
fn missing_metrics_fail_to_parse() {
    assert!(parse_pass("no useful lines here").is_none());
    assert!(parse_pass("total time: 1s").is_none());
    assert!(parse_pass("95th percentile: 1").is_none());
}

fn bench() -> Bench {
    Bench {
        size: "1G".into(),
        passes: 2,
        rndwr_events: 100,
        seqwr_events: 200,
    }
}

#[test]
fn plan_emits_a_pass_per_mode_per_count() {
    let b = bench();
    let phases = plan(&b);
    let notes: Vec<&str> = phases[0].steps.iter().map(|s| s.note.as_str()).collect();
    // prepare + 2 rndwr + 2 seqwr passes are all present.
    assert!(notes.contains(&"rndwr pass 1/2") && notes.contains(&"rndwr pass 2/2"));
    assert!(notes.contains(&"seqwr pass 1/2") && notes.contains(&"seqwr pass 2/2"));
}

#[test]
fn the_plan_shows_the_sysbench_invocations() {
    let phases = plan(&bench());
    assert_eq!(phases[0].steps.len(), 8);
    assert_eq!(
        phases[0].steps[2].describe(),
        ["sh -c cd /var/tmp/raiden-benchmark && sysbench fileio prepare --file-total-size=1G"]
    );
    assert_eq!(
        phases[0].steps[3].describe(),
        ["sh -c cd /var/tmp/raiden-benchmark && sysbench fileio run --file-total-size=1G --file-test-mode=rndwr --file-fsync-all=on --time=0 --events=100"]
    );
}

#[test]
fn flags_overlay_the_config() {
    let b = Bench::from_cfg(&Config::default().benchmark).overlay(&BenchmarkArgs {
        size: Some("4G".into()),
        passes: None,
        rndwr_events: Some(7),
        seqwr_events: None,
        format: "text".into(),
    });
    assert_eq!((b.size.as_str(), b.passes, b.rndwr_events, b.seqwr_events), ("4G", 3, 7, 20000));
    assert_eq!(b.modes(), [("rndwr", 7), ("seqwr", 20000)]);
}

#[test]
fn the_format_is_text_or_json() {
    assert!(matches!(wants_json("text"), Ok(false)));
    assert!(matches!(wants_json("json"), Ok(true)));
    assert!(matches!(wants_json("xml"), Err(e) if e.format == "xml"));
}

#[test]
fn the_last_line_of_a_metric_counts() {
    let p = parse_pass("total time: 1s\n95th percentile: 2\ntotal time:   3.5ss\n95th percentile: a: 4").unwrap();
    assert_eq!((p.total.as_str(), p.p95.as_str()), ("3.5", "4"));
}

#[test]
fn summaries_are_laid_out() {
    let m = |mode: &str| ModeText {
        mode: mode.into(),
        total: "12.5".into(),
        p95: "3.0".into(),
    };
    let b = bench();
    assert_eq!(
        table_lines(&b, &vec![m("rndwr")]),
        [
            "\nbenchmark (sysbench fileio, fsync-all, 1G, 2 passes)",
            "  mode      avg total    avg p95",
            "  rndwr         12.5s      3.0ms"
        ]
    );
    assert_eq!(
        json_line(&b, &vec![m("rndwr"), m("seqwr")]),
        "{\"size\":\"1G\",\"passes\":2,\"rndwr\":{\"total_s\":12.5,\"p95_ms\":3.0},\"seqwr\":{\"total_s\":12.5,\"p95_ms\":3.0}}"
    );
    assert_eq!(
        pass_line(&b, "rndwr", 1, "12.5", "3.0"),
        "  rndwr pass 1/2: total 12.5s  p95 3.0ms"
    );
}

#[test]
fn an_unknown_format_is_explained() {
    assert_eq!(
        wants_json("xml").err().unwrap().message(),
        "--format must be \"text\" or \"json\", got \"xml\""
    );
}

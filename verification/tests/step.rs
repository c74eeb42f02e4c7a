use raiden::step::{
    check, command_line, needs_password, plan_lines, schedule, stdin_data, Action, Phase, PlanEvent,
    Step, StepError,
};

fn three_steps() -> Vec<Phase> {
    let step = |n: &str| Step::write(n, n, "x");
    vec![Phase::new("p", vec![step("a"), step("b"), step("c")])]
}

fn ran(events: &[PlanEvent]) -> Vec<(usize, usize)> {
    events
        .iter()
        .filter_map(|e| match e {
            PlanEvent::Run(p, s) => Some((*p, *s)),
            _ => None,
        })
        .collect()
}

#[test]
fn runs_every_step_from_the_start() {
    assert_eq!(
        ran(&schedule(&three_steps(), (0, 0))),
        [(0, 0), (0, 1), (0, 2)]
    );
}

#[test]
fn resume_skips_already_applied_steps() {
    // resume past steps 0 and 1: only the third step should run.
    let events = schedule(&three_steps(), (0, 2));
    assert_eq!(ran(&events), [(0, 2)]);
    assert_eq!(
        events,
        [
            PlanEvent::Enter(0),
            PlanEvent::Skip(0, 0),
            PlanEvent::Skip(0, 1),
            PlanEvent::Run(0, 2)
        ]
    );
}

#[test]
fn needs_password_detects_secret_steps() {
    let plain = vec![Phase::new("p", vec![Step::run("x", &["true"])])];
    let secret = vec![Phase::new("p", vec![Step::run("x", &["true"]).secret()])];
    assert!(!needs_password(&plain));
    assert!(needs_password(&secret));
}

#[test]
fn the_password_is_masked_in_what_is_printed() {
    let s = Step::run("set the root password", &["chpasswd"])
        .chroot()
        .secret_prefixed("root:");
    assert_eq!(s.describe(), ["echo root:<password> | chroot /mnt chpasswd"]);
    let s = Step::run("x", &["umount", "/mnt"]).best_effort();
    assert_eq!(s.describe(), ["umount /mnt    # best-effort"]);
}

#[test]
fn files_are_shown_line_by_line() {
    let s = Step::write_mode("x", "/etc/hook", "#!/bin/sh\nexit 0\n", 0o755);
    assert_eq!(
        s.describe(),
        ["write /etc/hook (mode 0755):", "  | #!/bin/sh", "  | exit 0"]
    );
    let s = Step::append("x", "/etc/fstab", "a\nb\n");
    assert_eq!(s.describe(), ["append /etc/fstab: a", "append /etc/fstab: b"]);
}

#[test]
fn a_plan_is_printed_phase_by_phase() {
    let plan = vec![
        Phase::new("one", vec![Step::run("say hi", &["echo", "hi"])]),
        Phase::new("two", vec![]),
    ];
    assert_eq!(
        plan_lines(&plan),
        [
            "=== phase: one ===",
            "  # say hi",
            "  echo hi",
            "",
            "=== phase: two ===",
            "  (no steps)",
            ""
        ]
    );
}

fn spec(s: Step) -> raiden::step::RunSpec {
    match s.action {
        Action::Run(r) => r,
        _ => panic!("not a command"),
    }
}

#[test]
fn a_chroot_command_starts_in_the_target() {
    let r = spec(Step::run("x", &["update-grub"]).chroot());
    assert_eq!(command_line(&r), ["chroot", "/mnt", "update-grub"]);
    let r = spec(Step::run("x", &["sync"]));
    assert_eq!(command_line(&r), ["sync"]);
}

#[test]
fn a_secret_command_is_fed_the_password() {
    let r = spec(Step::run("x", &["chpasswd"]).secret_prefixed("root:"));
    assert!(matches!(stdin_data(&r, Some("pw")), Ok(Some(s)) if s == "root:pw"));
    assert!(matches!(stdin_data(&r, None), Err(StepError::NoPassword)));
    let r = spec(Step::run("x", &["true"]));
    assert!(matches!(stdin_data(&r, None), Ok(None)));
}

#[test]
fn only_a_best_effort_command_may_fail() {
    let r = spec(Step::run("x", &["umount", "/mnt"]));
    assert!(check(true, &r).is_ok());
    assert!(matches!(check(false, &r), Err(StepError::Failed(s)) if s == "umount /mnt"));
    let r = spec(Step::run("x", &["umount", "/mnt"]).best_effort());
    assert!(check(false, &r).is_ok());
}

#[test]
fn a_dry_run_shows_the_words_that_run() {
    let s = Step::run("x", &["umount", "-l", "/mnt/boot"])
        .chroot()
        .best_effort();
    assert_eq!(
        s.describe()[0],
        "chroot /mnt umount -l /mnt/boot    # best-effort"
    );
    assert_eq!(
        command_line(&spec(s)).join(" "),
        "chroot /mnt umount -l /mnt/boot"
    );
}

#[test]
fn a_failed_step_is_explained() {
    assert_eq!(
        StepError::NoPassword.message(),
        "a password is required but none was provided"
    );
    assert_eq!(
        StepError::Failed("umount /mnt".into()).message(),
        "command failed: umount /mnt"
    );
}

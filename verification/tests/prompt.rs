use raiden::prompt::{
    ask, choose_option, confirm, confirm_or_yes, password_reply, read_password, strip_line_end,
    Dialogue, Reply,
};

fn lines(v: &[&str]) -> Vec<String> {
    v.iter().map(|s| s.to_string()).collect()
}

#[test]
fn verify_retries_until_the_pair_matches() {
    // first pair mismatches (a/b), second pair matches.
    let pw = read_password(true, &lines(&["a", "b", "secret", "secret"])).unwrap();
    assert_eq!(pw, "secret");
}

#[test]
fn reprompts_on_an_empty_entry() {
    let pw = read_password(true, &lines(&["", "ok", "ok"])).unwrap();
    assert_eq!(pw, "ok");
}

#[test]
fn without_verify_takes_the_first_nonempty() {
    let pw = read_password(false, &lines(&["", "once"])).unwrap();
    assert_eq!(pw, "once");
}

#[test]
fn end_of_input_aborts_instead_of_looping() {
    // a reader that is at its end (closed stdin) must not spin forever.
    assert!(read_password(true, &lines(&[])).is_err());
    assert!(read_password(true, &lines(&["a"])).is_err());
}

#[test]
fn the_dialogue_goes_line_by_line() {
    assert!(matches!(password_reply(true, Dialogue::Start, "".into()), Reply::Empty));
    assert!(matches!(password_reply(true, Dialogue::Start, "a".into()), Reply::Again(s) if s == "a"));
    assert!(matches!(
        password_reply(true, Dialogue::Verify("a".into()), "b".into()),
        Reply::Mismatch
    ));
    assert!(matches!(password_reply(false, Dialogue::Start, "a".into()), Reply::Done(s) if s == "a"));
}

#[test]
fn only_a_yes_confirms() {
    for yes in ["y", "Y", "yes\n", " YES "] {
        assert!(confirm(yes), "{yes:?}");
    }
    for no in ["", "n", "no", "yess", "ye", "y y"] {
        assert!(!confirm(no), "{no:?}");
    }
    assert!(confirm_or_yes(true, "n"));
    assert!(!confirm_or_yes(false, "n"));
}

#[test]
fn a_blank_answer_takes_the_default() {
    assert_eq!(ask(" \n", "6"), "6");
    assert_eq!(ask(" 10\n", "6"), "10");
    assert_eq!(choose_option("2", 3), Some(1));
    assert_eq!(choose_option("0", 3), None);
    assert_eq!(choose_option("4", 3), None);
    assert_eq!(choose_option("x", 3), None);
}

#[test]
fn line_ends_are_stripped() {
    assert_eq!(strip_line_end("pw \r\n\n"), "pw ");
    assert_eq!(strip_line_end("\n"), "");
}

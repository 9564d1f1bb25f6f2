use confsync::cli::{Cli, DeleteTarget};
use confsync::commands::{handle_delete, prepare_init, DeleteStep, InitDecision, RepoScope};
use confsync::config::Config;
use confsync::history::{
    find_data_file, find_sidecar, history_line, is_sidecar, list_history, log_line, log_line_now, sidecar_name, stamped_line,
};
use confsync::timestamp::{local_now, Timestamp};
use confsync::ui::{table_rows, wrap_text};

#[test]
fn timestamp_text_is_zero_padded() {
    let t = Timestamp { year: 2024, month: 3, day: 9, hour: 7, minute: 5, second: 0 };
    assert_eq!(t.to_text(), "2024-03-09 07:05:00");
    let early = Timestamp { year: 33, month: 12, day: 31, hour: 23, minute: 59, second: 59 };
    assert_eq!(early.to_text(), "0033-12-31 23:59:59");
}

#[test]
fn timestamp_text_signs_years_outside_four_digits() {
    let neg = Timestamp { year: -44, month: 3, day: 15, hour: 12, minute: 0, second: 0 };
    assert_eq!(neg.to_text(), "-0044-03-15 12:00:00");
    let big = Timestamp { year: 12345, month: 1, day: 1, hour: 0, minute: 0, second: 0 };
    assert_eq!(big.to_text(), "+12345-01-01 00:00:00");
}

#[test]
fn local_now_is_in_range() {
    let t = local_now().expect("the clock reads after 1970");
    assert!((1..=12).contains(&t.month));
    assert!((1..=31).contains(&t.day));
    assert!(t.hour < 24 && t.minute < 60 && t.second < 60);
    assert_eq!(t.to_text().len(), 19);
}

#[test]
fn history_line_format() {
    let t = Timestamp { year: 2025, month: 11, day: 2, hour: 14, minute: 30, second: 9 };
    assert_eq!(history_line(&t, "/home/u/.vimrc"), "[2025-11-02 14:30:09] /home/u/.vimrc");
}

#[test]
fn log_line_format() {
    let t = Timestamp { year: 2025, month: 1, day: 2, hour: 3, minute: 4, second: 5 };
    assert_eq!(
        log_line(&t, None, "info", "COPY", "done"),
        "[2025-01-02 03:04:05 | default] info => COPY: done"
    );
    assert_eq!(
        log_line(&t, Some("work"), "error", "ADD", "x"),
        "[2025-01-02 03:04:05 | work] error => ADD: x"
    );
}

#[test]
fn sidecar_names() {
    assert_eq!(sidecar_name("a.conf"), "a.conf.cmt");
    assert!(is_sidecar("a.conf.cmt"));
    assert!(!is_sidecar(".cmt"));
    assert!(!is_sidecar("a.conf"));
    assert!(is_sidecar("..cmt"));
    let names = vec!["a.conf.cmt".to_string(), "a.conf".to_string()];
    assert_eq!(find_sidecar(&names), Some(0));
    assert_eq!(find_data_file(&names), Some(1));
    assert_eq!(find_sidecar(&vec!["x".to_string()]), None);
    assert_eq!(find_data_file(&vec!["x.cmt".to_string()]), None);
}

#[test]
fn commit_log_listing() {
    assert_eq!(list_history(None), Vec::<String>::new());
    assert_eq!(list_history(Some("[t] one\n[t] two\n")), vec!["[t] one".to_string(), "[t] two".to_string()]);
}

#[test]
fn wrap_text_cuts_fixed_width() {
    assert_eq!(wrap_text("abcdef", 4), vec!["abcd".to_string(), "ef".to_string()]);
    assert_eq!(wrap_text("abcd", 4), vec!["abcd".to_string()]);
    assert_eq!(wrap_text("", 4), Vec::<String>::new());
    assert_eq!(wrap_text("ab", 0), vec!["a".to_string(), "b".to_string()]);
}

#[test]
fn table_rows_pad_shorter_column() {
    let rows = table_rows("bash", "/home/user/a/very/long/path/to/the/config/file/bashrc");
    assert_eq!(rows.len(), 2);
    assert_eq!(rows[0].0, "bash");
    assert_eq!(rows[0].1, "/home/user/a/very/long/path/to/the/confi");
    assert_eq!(rows[1].0, "");
    assert_eq!(rows[1].1, "g/file/bashrc");
}

#[test]
fn delete_plans() {
    assert_eq!(handle_delete(DeleteTarget::Config { force: true }, true), vec![DeleteStep::DeleteConfig]);
    assert_eq!(handle_delete(DeleteTarget::Config { force: false }, true), vec![DeleteStep::AskForForce]);
    assert_eq!(handle_delete(DeleteTarget::Config { force: false }, false), vec![DeleteStep::ReportNoConfig]);
    assert_eq!(
        handle_delete(DeleteTarget::Local { force: true }, true),
        vec![DeleteStep::DeleteRepository(RepoScope::Local)]
    );
    assert_eq!(handle_delete(DeleteTarget::Remote { force: false }, true), vec![DeleteStep::AskForForce]);
    assert_eq!(
        handle_delete(DeleteTarget::All { force: true }, false),
        vec![DeleteStep::DeleteRepository(RepoScope::All), DeleteStep::DeleteConfig]
    );
}

#[test]
fn init_decisions() {
    let mut c = Config::initial("/c".to_string());
    assert_eq!(prepare_init(&mut c, None, false, false, false), InitDecision::NotSupported);
    assert_eq!(prepare_init(&mut c, Some("u".to_string()), true, false, true), InitDecision::AlreadyInitialized);
    assert_eq!(c.storage.repo_url, "");
    assert_eq!(prepare_init(&mut c, Some("git@host:me/conf.git".to_string()), true, true, true), InitDecision::Proceed);
    assert_eq!(c.storage.repo_url, "git@host:me/conf.git");
    assert!(!c.storage.local);
    assert_eq!(prepare_init(&mut c, Some(String::new()), true, false, false), InitDecision::Proceed);
    assert!(c.storage.local);
}

#[test]
fn profile_defaults() {
    let mut cli = Cli { command: None, verbose: false, quiet: false, profile: None, paths: false, version: false };
    assert_eq!(cli.profile_name(), "default");
    cli.profile = Some("work".to_string());
    assert_eq!(cli.profile_name(), "work");
}

#[test]
fn stamped_lines_carry_current_time() {
    let line = stamped_line("backup of a").unwrap();
    assert_eq!(line.len(), 22 + "backup of a".len());
    assert!(line.ends_with("] backup of a"));
    let log = log_line_now(Some("work"), "info", "COPY", "m").unwrap();
    assert!(log.ends_with(" | work] info => COPY: m"));
    assert_eq!(&log[5..6], "-");
}

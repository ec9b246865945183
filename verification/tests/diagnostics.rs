use taled_editor::android_diag::{
    self, append_line, default_log_path, install, log_file_in, log_path, LogTarget,
};
use taled_editor::web_diag::{self, append_boot_line, download_payload, entries, WebLog, MAX_LOG_LINES};

#[test]
fn web_log_starts_empty() {
    let logs = WebLog::new();
    assert!(entries(&logs).is_empty());
}

#[test]
fn web_log_keeps_order() {
    let mut logs = WebLog::new();
    web_diag::log(&mut logs, "first".to_string());
    web_diag::log(&mut logs, "second".to_string());
    assert_eq!(entries(&logs), vec!["first".to_string(), "second".to_string()]);
}

#[test]
fn web_log_drops_oldest_beyond_limit() {
    let mut logs = WebLog::new();
    for i in 0..(MAX_LOG_LINES + 5) {
        web_diag::log(&mut logs, format!("line {i}"));
    }
    let lines = entries(&logs);
    assert_eq!(lines.len(), 400);
    assert_eq!(lines[0], "line 5");
    assert_eq!(lines[399], "line 404");
}

#[test]
fn web_log_exactly_at_limit_keeps_everything() {
    let mut logs = WebLog::new();
    for i in 0..MAX_LOG_LINES {
        web_diag::log(&mut logs, format!("{i}"));
    }
    let lines = entries(&logs);
    assert_eq!(lines.len(), 400);
    assert_eq!(lines[0], "0");
}

#[test]
fn web_mark_app_rendered_logs_boot_line() {
    let mut logs = WebLog::new();
    web_diag::mark_app_rendered(&mut logs);
    assert_eq!(entries(&logs), vec!["boot: first render committed".to_string()]);
}

#[test]
fn web_boot_overlay_appends_line() {
    assert_eq!(append_boot_line("Wishing Room web boot log\n", "hello"), "Wishing Room web boot log\nhello\n");
    assert_eq!(append_boot_line("", ""), "\n");
}

#[test]
fn web_download_payload_joins_lines() {
    let lines = vec!["a".to_string(), "b".to_string(), "c".to_string()];
    assert_eq!(download_payload(&lines), "a\nb\nc");
    assert_eq!(download_payload(&vec!["only".to_string()]), "only");
}

#[test]
fn web_download_payload_without_lines() {
    assert_eq!(download_payload(&Vec::new()), "no logs captured");
}

#[test]
fn web_download_payload_of_logged_entries() {
    let mut logs = WebLog::new();
    web_diag::log(&mut logs, "boot: installing web diagnostics".to_string());
    web_diag::mark_app_rendered(&mut logs);
    assert_eq!(
        download_payload(&entries(&logs)),
        "boot: installing web diagnostics\nboot: first render committed"
    );
}

#[test]
fn android_default_path() {
    assert_eq!(default_log_path(), "/sdcard/Android/data/io.github.taled.editor/files/logs/taled-editor.log");
    assert_eq!(log_path(&LogTarget::new()), default_log_path());
}

#[test]
fn android_log_file_in_directory() {
    assert_eq!(
        log_file_in("/data/user/0/io.github.taled.editor/files"),
        "/data/user/0/io.github.taled.editor/files/logs/taled-editor.log"
    );
    assert_eq!(log_file_in("/files/"), "/files/logs/taled-editor.log");
    assert_eq!(log_file_in(""), "logs/taled-editor.log");
}

#[test]
fn android_target_is_recorded_once() {
    let mut target = LogTarget::new();
    target.record("/first.log".to_string());
    target.record("/second.log".to_string());
    assert_eq!(log_path(&target), "/first.log");
}

#[test]
fn android_line_format() {
    let target = LogTarget::new();
    let w = append_line(&target, 1700000000123, "hello");
    assert_eq!(w.path, default_log_path());
    assert_eq!(w.line, "[1700000000123] hello\n");
    let w0 = android_diag::log(&target, 0, "x".to_string());
    assert_eq!(w0.line, "[0] x\n");
}

#[test]
fn android_mark_app_rendered_line() {
    let mut target = LogTarget::new();
    target.record("/tmp/app.log".to_string());
    let w = android_diag::mark_app_rendered(&target, 42);
    assert_eq!(w.path, "/tmp/app.log");
    assert_eq!(w.line, "[42] boot: first render committed\n");
}

#[test]
fn android_install_with_found_directory() {
    let mut target = LogTarget::new();
    let found = log_file_in("/data/files");
    let writes = install(&mut target, Some(found), 7);
    assert_eq!(log_path(&target), "/data/files/logs/taled-editor.log");
    assert_eq!(writes.len(), 2);
    assert_eq!(writes[0].path, "/data/files/logs/taled-editor.log");
    assert_eq!(writes[0].line, "[7] boot: installing android diagnostics\n");
    assert_eq!(writes[1].line, "[7] boot: log_path=/data/files/logs/taled-editor.log\n");
}

#[test]
fn android_install_falls_back_to_default() {
    let mut target = LogTarget::new();
    let writes = install(&mut target, None, 9);
    assert_eq!(log_path(&target), default_log_path());
    assert_eq!(writes[1].line, format!("[9] boot: log_path={}\n", default_log_path()));
}

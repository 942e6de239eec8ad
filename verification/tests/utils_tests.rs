use audio_selector::utils::{
    config_dir_from, get_config_dir, get_config_path, get_log_content, get_log_path, join_os_path,
    log_entry, log_line_at, timed_status_at, timed_status_now,
};

#[test]
fn joining_paths() {
    assert_eq!(join_os_path(b"", b"a"), b"a".to_vec());
    assert_eq!(join_os_path(b"/x/", b"a"), b"/x/a".to_vec());
    assert_eq!(join_os_path(b"/x", b"a"), b"/x/a".to_vec());
    let joined = std::path::Path::new("/x").join("a");
    assert_eq!(join_os_path(b"/x", b"a"), joined.to_str().unwrap().as_bytes().to_vec());
}

#[test]
fn config_locations() {
    let b = |s: &str| s.as_bytes().to_vec();
    let cfg = config_dir_from(&Some(b("/home/u/.config")), &Some(b("/home/u")));
    assert_eq!(cfg, b("/home/u/.config/audio-selector"));
    assert_eq!(config_dir_from(&Some(b("/c/")), &None), b("/c/audio-selector"));
    assert_eq!(config_dir_from(&None, &Some(b("/home/u"))), b("/home/u/.config/audio-selector"));
    assert_eq!(config_dir_from(&None, &None), b(".config/audio-selector"));
    assert_eq!(get_config_path(&cfg), b("/home/u/.config/audio-selector/config.json"));
    assert_eq!(get_log_path(&cfg), b("/home/u/.config/audio-selector/debug.log"));
    assert!(get_config_dir().ends_with(b"audio-selector"));
}

#[test]
fn paths_that_are_not_unicode_are_kept() {
    let home = vec![b'/', b'h', 0xff, 0xfe];
    let dir = config_dir_from(&None, &Some(home));
    assert_eq!(dir, vec![b'/', b'h', 0xff, 0xfe, b'/', b'.', b'c', b'o', b'n', b'f', b'i', b'g', b'/', b'a', b'u', b'd', b'i', b'o', b'-', b's', b'e', b'l', b'e', b'c', b't', b'o', b'r']);
    assert_eq!(join_os_path(&[0xff], b"x"), vec![0xff, b'/', b'x']);
    assert_eq!(join_os_path(b"", b"x"), b"x".to_vec());
    assert_eq!(join_os_path(b"/a/", b"x"), b"/a/x".to_vec());
}

#[test]
fn log_lines() {
    assert_eq!(log_line_at("2024-01-01 10:00:00", "hi"), "2024-01-01 10:00:00 - hi\n");
    let e = log_entry("started");
    assert!(e.ends_with(" - started\n"));
    assert_eq!(e.len(), "2024-01-01 10:00:00 - started\n".len());
    assert_eq!(timed_status_at("Applied", "10:00:00"), "Applied - 10:00:00");
    let s = timed_status_now("Applied");
    assert!(s.starts_with("Applied - "));
    assert_eq!(s.len(), "Applied - 10:00:00".len());
}

#[test]
fn log_window_contents() {
    assert_eq!(get_log_content(&None, ""), "No logs.");
    let text: String = (1..=150).map(|i| format!("line {}\n", i)).collect();
    let shown = get_log_content(&Some(text.clone()), "");
    let lines: Vec<&str> = shown.lines().collect();
    assert_eq!(lines.len(), 100);
    assert_eq!(lines[0], "line 51");
    assert_eq!(lines[99], "line 150");
    let log = "a - BT: Connect\nb - ok\nc - bt: retry\n".to_string();
    assert_eq!(get_log_content(&Some(log.clone()), "bT:"), "a - BT: Connect\nc - bt: retry");
    assert_eq!(get_log_content(&Some(log), "nothing"), "");
    assert_eq!(get_log_content(&Some(String::new()), ""), "");
}

#[test]
fn stamps_have_their_formats() {
    let e = log_entry("m");
    let stamp = &e[..e.len() - " - m\n".len()];
    let b = stamp.as_bytes();
    assert_eq!(b.len(), 19);
    for (i, c) in b.iter().enumerate() {
        match i {
            4 | 7 => assert_eq!(*c, b'-'),
            10 => assert_eq!(*c, b' '),
            13 | 16 => assert_eq!(*c, b':'),
            _ => assert!(c.is_ascii_digit()),
        }
    }
    let s = timed_status_now("X");
    let clock = &s.as_bytes()["X - ".len()..];
    assert_eq!(clock.len(), 8);
    assert!(clock[2] == b':' && clock[5] == b':');
}

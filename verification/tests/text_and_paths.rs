use ssrs::cache::format_timestamp;
use ssrs::paths::{cache_base, dirs, join_path_exec, manifest_dir, manifest_path, model_cache_dir, replace_slashes};
use ssrs::text::{decimal_string, is_white_space_char, trim};

#[test]
fn trim_removes_unicode_whitespace_at_both_ends() {
    assert_eq!(trim("  hello world \n"), "hello world");
    assert_eq!(trim("\u{3000}\u{a0}x\u{2028}"), "x");
    assert_eq!(trim("   "), "");
    assert_eq!(trim(""), "");
    assert_eq!(trim("a b"), "a b");
}

#[test]
fn trim_agrees_with_std() {
    for s in ["\t a \r", "\u{85}b\u{200a}", "\u{200b}c", " \u{feff}d "] {
        assert_eq!(trim(s), s.trim());
    }
}

#[test]
fn trim_twice_is_trim_once() {
    let once = trim("  \u{2000}text\t ");
    assert_eq!(trim(&once), once);
}

#[test]
fn whitespace_matches_char_is_whitespace() {
    for u in 0u32..0x3100 {
        if let Some(c) = char::from_u32(u) {
            assert_eq!(is_white_space_char(c), c.is_whitespace(), "{u:#x}");
        }
    }
}

#[test]
fn decimal_renders_integers() {
    assert_eq!(decimal_string(0), "0");
    assert_eq!(decimal_string(7), "7");
    assert_eq!(decimal_string(1234567890), "1234567890");
    assert_eq!(decimal_string(u64::MAX), u64::MAX.to_string());
}

#[test]
fn timestamps_show_days_hours_minutes_seconds() {
    assert_eq!(format_timestamp(0), "0d 00:00:00");
    assert_eq!(format_timestamp(90061), "1d 01:01:01");
    assert_eq!(format_timestamp(86399), "0d 23:59:59");
    assert_eq!(format_timestamp(1_700_000_000), "19675d 22:13:20");
}

#[test]
fn join_follows_path_push() {
    assert_eq!(join_path_exec("/a", "b"), "/a/b");
    assert_eq!(join_path_exec("/a/", "b"), "/a/b");
    assert_eq!(join_path_exec("", "b"), "b");
    assert_eq!(join_path_exec("/a", "/c"), "/c");
    assert_eq!(join_path_exec("a", ""), "a/");
}

#[test]
fn cache_lives_under_home() {
    assert_eq!(dirs(Some("/home/u")).unwrap(), "/home/u/.cache/ssrs");
    assert_eq!(dirs(None), None);
    assert_eq!(cache_base(None), ".");
    assert_eq!(manifest_dir(Some("/home/u")), "/home/u/.cache/ssrs/models");
    assert_eq!(manifest_path(Some("/home/u")), "/home/u/.cache/ssrs/models/models.json");
    assert_eq!(manifest_path(None), "./models/models.json");
}

#[test]
fn model_dirs_replace_slashes() {
    assert_eq!(replace_slashes("openai/whisper-tiny"), "openai__whisper-tiny");
    assert_eq!(replace_slashes("a//b/"), "a____b__");
    assert_eq!(
        model_cache_dir(Some("/home/u"), "openai/whisper-tiny"),
        "/home/u/.cache/ssrs/openai__whisper-tiny"
    );
    assert_eq!(model_cache_dir(None, "/abs"), "./__abs");
}

use kaku::ids::{generate_id, generate_sidebar_id};
use kaku::numbers::{decimal, hex, hex_fixed, parse_i32, signed_decimal};
use kaku::order::is_before;
use kaku::paths::{
    components, depth, expand_path, file_name, is_absolute, is_under, join_path, split_on,
};
use kaku::state_paths::{
    project_dir, projects_file_path, sessions_file_path, sidebar_project_snippets_path,
    sidebar_ui_state_path, state_root, temporary_file_name,
};
use kaku::terminal_text::strip_ansi_control;
use kaku::text::{
    char_count, contains_any_of, contains_text, holds, is_blank, is_empty, is_whitespace, join,
    joined, last_segment, lines, same_text, split_whitespace, starts_with, take_chars,
    to_ascii_lowercase, trim, trim_start_matches,
};
use std::path::Path;

const SAMPLES: [&str; 16] = [
    "",
    " ",
    "a",
    "  a b  ",
    "\u{a0}x\u{3000}",
    "one\ntwo\r\nthree\n",
    "\n",
    "\r\n",
    "a\rb",
    "Grüße, WELT",
    "日本 語",
    "\u{85}\u{2028}z\u{205f}",
    "\t\u{b}\u{c}x",
    "ws://ws://host",
    "/a//b/./c/",
    "~/x",
];

#[test]
fn text_agrees_with_the_standard_library() {
    for s in SAMPLES {
        assert_eq!(trim(s), s.trim());
        assert_eq!(is_blank(s), s.trim().is_empty());
        assert_eq!(is_empty(s), s.is_empty());
        assert_eq!(to_ascii_lowercase(s), s.to_ascii_lowercase());
        assert_eq!(char_count(s), s.chars().count());
        assert_eq!(take_chars(s, 3), s.chars().take(3).collect::<String>());
        assert_eq!(lines(s), s.lines().map(str::to_string).collect::<Vec<_>>());
        assert_eq!(
            split_whitespace(s),
            s.split_whitespace().map(str::to_string).collect::<Vec<_>>()
        );
        assert_eq!(
            split_on(s, '/'),
            s.split('/').map(str::to_string).collect::<Vec<_>>()
        );
        assert_eq!(last_segment(s, '/'), s.rsplit('/').next().unwrap());
        assert_eq!(trim_start_matches(s, "ws://"), s.trim_start_matches("ws://"));
        for t in SAMPLES {
            assert_eq!(is_before(s, t), s < t);
            assert_eq!(same_text(s, t), s == t);
            assert_eq!(contains_text(s, t), s.contains(t));
            assert_eq!(starts_with(s, t), s.starts_with(t));
            assert_eq!(joined(s, t), format!("{s}{t}"));
        }
    }
}

#[test]
fn every_white_space_character_is_known() {
    for n in 0..=0x10ffffu32 {
        if let Some(c) = char::from_u32(n) {
            assert_eq!(is_whitespace(c), c.is_whitespace(), "{n:x}");
        }
    }
}

#[test]
fn lists_of_text() {
    let list = vec!["a".to_string(), "b c".to_string()];
    assert!(holds(&list, "b c"));
    assert!(!holds(&list, "b"));
    assert_eq!(join(&list, ", "), "a, b c");
    assert_eq!(join(&Vec::new(), ", "), "");
    assert!(contains_any_of("please approve", &vec!["deny", "approve"]));
    assert!(!contains_any_of("please wait", &vec!["deny", "approve"]));
}

#[test]
fn numbers_are_written_as_the_formatter_writes_them() {
    for n in [0u128, 7, 10, 99, 255, 256, 65_535, 1_000_000, u64::MAX as u128, u128::MAX] {
        assert_eq!(decimal(n), n.to_string());
        assert_eq!(hex(n), format!("{n:x}"));
    }
    for n in [i32::MIN, -130, -1, 0, 1, 130, i32::MAX] {
        assert_eq!(signed_decimal(n), n.to_string());
    }
    for n in [0u64, 1, 0xdead_beef, u64::MAX] {
        assert_eq!(hex_fixed(n, 16), format!("{n:016x}"));
    }
}

#[test]
fn numbers_are_read_as_the_parser_reads_them() {
    for s in [
        "0", "-0", "+5", "130", "-130", "2147483647", "2147483648", "-2147483648", "-2147483649",
        "", "-", "+", "1a", " 1", "00012", "99999999999999999999",
    ] {
        assert_eq!(parse_i32(s), s.parse::<i32>().ok(), "{s:?}");
    }
}

#[test]
fn a_number_reads_back_what_was_written() {
    for n in [i32::MIN, -7, 0, 7, i32::MAX] {
        assert_eq!(parse_i32(&signed_decimal(n)), Some(n));
    }
}

#[test]
fn paths_agree_with_the_standard_library() {
    let paths = [
        "", "/", "//", ".", "./", "..", "a", "./a", "a/.", "a/./b", "/a//b/", "/a/b/..", "a/../b",
        "/Users/x/Kaku", "/Users/x/Kaku/src", "/Users/x/Kakus",
    ];
    for p in paths {
        let std_path = Path::new(p);
        assert_eq!(is_absolute(p), std_path.is_absolute(), "{p:?}");
        assert_eq!(depth(p), std_path.components().count(), "{p:?}");
        assert_eq!(
            components(p),
            std_path
                .components()
                .map(|c| c.as_os_str().to_string_lossy().into_owned())
                .collect::<Vec<_>>(),
            "{p:?}"
        );
        assert_eq!(
            file_name(p),
            std_path.file_name().map(|n| n.to_string_lossy().into_owned()),
            "{p:?}"
        );
        for q in paths {
            assert_eq!(is_under(p, q), std_path.starts_with(q), "{p:?} {q:?}");
            assert_eq!(
                join_path(p, q),
                std_path.join(q).to_string_lossy().into_owned(),
                "{p:?} {q:?}"
            );
        }
    }
}

#[test]
fn user_paths_are_made_absolute() {
    assert_eq!(expand_path("~", "/home/me", "/work"), "/home/me");
    assert_eq!(expand_path(" ~ ", "/home/me", "/work"), "/home/me");
    assert_eq!(expand_path("~/code", "/home/me", "/work"), "/home/me/code");
    assert_eq!(expand_path("~/~/code", "/home/me", "/work"), "/home/me/code");
    assert_eq!(expand_path("code", "/home/me", "/work"), "/work/code");
    assert_eq!(expand_path("/srv", "/home/me", "/work"), "/srv");
    assert_eq!(expand_path("~x", "/home/me", "/work"), "/work/~x");
}

#[test]
fn state_lies_where_it_should() {
    let root = state_root("/home/me");
    assert_eq!(root, "/home/me/.kaku");
    assert_eq!(projects_file_path(&root), "/home/me/.kaku/projects.json");
    assert_eq!(project_dir(&root, "p1"), "/home/me/.kaku/projects/p1");
    assert_eq!(
        sessions_file_path(&root, "p1"),
        "/home/me/.kaku/projects/p1/sessions.json"
    );
    assert_eq!(
        sidebar_project_snippets_path(&root, "p1"),
        "/home/me/.kaku/projects/p1/resources/snippets.json"
    );
    assert_eq!(sidebar_ui_state_path(&root), "/home/me/.kaku/gui/sidebar.json");
    assert_eq!(temporary_file_name("projects.json", 12, 345), ".projects.json.tmp-12-345");
    assert_ne!(project_dir(&root, "p1"), project_dir(&root, "p2"));
}

#[test]
fn ids_hold_time_process_and_count() {
    assert_eq!(generate_id("proj", 0xabc, 0x1f), "proj_abc1f");
    assert_eq!(generate_sidebar_id("sess", 0xabc, 0x10, 2), "sess_abc102");
    assert_ne!(generate_id("proj", 0xabc, 1), generate_id("proj", 0xabd, 2));
    assert_ne!(generate_id("proj", 0xabc, 1), generate_id("proj", 0xabc, 2));
}

#[test]
fn escape_sequences_are_stripped() {
    assert_eq!(strip_ansi_control("plain"), "plain");
    assert_eq!(strip_ansi_control("\u{1b}[32mgreen\u{1b}[0m"), "green");
    assert_eq!(strip_ansi_control("a\u{1b}]0;title\u{7}b"), "ab");
    assert_eq!(strip_ansi_control("a\u{1b}]0;title\u{1b}\\b"), "ab");
    assert_eq!(strip_ansi_control("a\u{1b}"), "a");
    assert_eq!(strip_ansi_control("Grüße \u{1b}[1;31m日本\u{1b}[m!"), "Grüße 日本!");
    assert!(!strip_ansi_control("\u{1b}\u{1b}[[x").contains('\u{1b}'));
}

fn strip_bytes(input: &str) -> String {
    let mut left = input.as_bytes();
    let mut kept: Vec<u8> = Vec::new();
    while let Some((&first, rest)) = left.split_first() {
        left = rest;
        if first != 0x1b {
            kept.push(first);
            continue;
        }
        let Some((&kind, rest)) = left.split_first() else {
            break;
        };
        left = rest;
        if kind == b'[' {
            let end = left.iter().position(|b| (0x40..=0x7e).contains(b));
            left = end.map_or(&[], |at| &left[at + 1..]);
        } else if kind == b']' {
            loop {
                match left {
                    [] => break,
                    [0x07, rest @ ..] | [0x1b, b'\\', rest @ ..] => {
                        left = rest;
                        break;
                    }
                    [_, rest @ ..] => left = rest,
                }
            }
        }
    }
    String::from_utf8_lossy(&kept).into_owned()
}

#[test]
fn stripping_characters_and_bytes_agree() {
    let alphabet = [
        '\u{1b}', '\u{1b}', '[', ']', '\u{7}', '\\', 'm', '3', ';', 'ü', '日', '\u{1f600}', '\n',
    ];
    let mut random = fastrand::Rng::with_seed(7);
    for _ in 0..20_000 {
        let length = random.usize(0..12);
        let text: String = (0..length).map(|_| alphabet[random.usize(0..alphabet.len())]).collect();
        assert_eq!(strip_ansi_control(&text), strip_bytes(&text), "{text:?}");
    }
}

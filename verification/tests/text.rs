use rs_term::paths::{config_dir, file_name, folder_name, layout_path, picked_folder, tmux_conf_path};
use rs_term::text::{
    bytes_of, chars_of, contains, elide, first_line, is_control, is_whitespace, last_filled_index,
    push_decimal, split_on, str_eq, string_of, trim, trim_end_matches,
};

#[test]
fn white_space_and_controls_are_those_of_unicode() {
    for n in 0..=0x10ffffu32 {
        if let Some(c) = char::from_u32(n) {
            assert_eq!(is_whitespace(c), c.is_whitespace(), "{:x}", n);
            assert_eq!(is_control(c), c.is_control(), "{:x}", n);
        }
    }
}

#[test]
fn trimming() {
    for s in ["", " ", " a b\t", "\u{2003}x\u{a0}", "plain", "\n\nx", "x\r\n"] {
        assert_eq!(trim(s), s.trim());
    }
    for s in ["", "/", "a/", "a//", "/a", "a/b"] {
        assert_eq!(trim_end_matches(s, '/'), s.trim_end_matches('/'));
    }
}

#[test]
fn splitting() {
    for s in ["", "/", "a/b", "/a//b/", "äö/ü"] {
        let want: Vec<&str> = s.split('/').collect();
        assert_eq!(split_on(s, '/'), want);
    }
    assert_eq!(last_filled_index(&split_on("/a/b//", '/')), Some(2));
    assert_eq!(last_filled_index(&split_on("//", '/')), None);
    assert_eq!(string_of(&chars_of("aäb"), 1, 3), "äb");
    assert_eq!(bytes_of("ä"), vec![0xc3, 0xa4]);
    assert!(str_eq("ab", "ab") && !str_eq("ab", "a"));
}

#[test]
fn first_lines() {
    assert_eq!(first_line("\n  \n  one \ntwo"), "one");
    assert_eq!(first_line("\r\n x\r\n"), "x");
    assert_eq!(first_line(" \n\t"), "");
}

#[test]
fn shortening() {
    assert_eq!(elide("abcdef", 6), "abcdef");
    assert_eq!(elide("abcdef", 5), "abcd…");
    assert_eq!(elide("äöüß", 3), "äö…");
    assert_eq!(elide("abc", 1), "…");
    assert_eq!(elide("abc", 0), "…");
    assert_eq!(elide("", 0), "");
    // Step by step or at once, it is the same.
    for n in 0..8 {
        for m in 0..=n {
            assert_eq!(elide(&elide("abcdef", m), n), elide("abcdef", m));
            assert_eq!(elide(&elide("abcdef", n), m), elide("abcdef", m));
        }
    }
}

#[test]
fn numbers() {
    for n in [0u64, 7, 10, 99, 100, 20000, u64::MAX] {
        let mut s = String::from("n");
        push_decimal(&mut s, n);
        assert_eq!(s, format!("n{}", n));
    }
}

#[test]
fn searching() {
    assert!(contains("abcabd", "abd"));
    assert!(!contains("abcab", "abd"));
    assert!(contains("abc", ""));
    assert!(contains("", ""));
    assert!(!contains("", "a"));
    assert!(contains("aab", "ab"));
}

#[test]
fn files_lie_in_the_home_directory() {
    assert_eq!(config_dir(Some("/home/u")), "/home/u/.rs-term");
    assert_eq!(config_dir(None), "./.rs-term");
    assert_eq!(layout_path(Some("/home/u/")), "/home/u/.rs-term/layout.json");
    assert_eq!(tmux_conf_path(None), "./.rs-term/tmux.conf");
    for home in ["/home/u", "/", "", ".", "a//"] {
        let want = std::path::Path::new(home).join(".rs-term").join("layout.json");
        assert_eq!(layout_path(Some(home)), want.to_str().unwrap());
    }
}

#[test]
fn names_are_those_of_paths() {
    for path in [
        "", "/", ".", "..", "a", "/a", "/a/", "/a/b", "/a/b//", "/a/b/.", "/a/.", "./", "./.",
        "a/..", "/..", "/.", "//", "/ä ö/ü", "...", "/a/...", ".a",
    ] {
        let want = std::path::Path::new(path)
            .file_name()
            .map(|name| name.to_str().unwrap().to_string());
        assert_eq!(file_name(path), want, "{}", path);
    }
    assert_eq!(folder_name("/home/u/src"), "src");
    assert_eq!(folder_name("/"), "/");
}

#[test]
fn picked_folders() {
    assert_eq!(picked_folder(true, b"/home/u/src/\n"), Some("/home/u/src".to_string()));
    assert_eq!(picked_folder(true, b" /a b// "), Some("/a b".to_string()));
    assert_eq!(picked_folder(true, b"/\n"), None);
    assert_eq!(picked_folder(true, b""), None);
    assert_eq!(picked_folder(false, b"/home/u"), None);
    assert_eq!(picked_folder(true, b"/a\xffb"), Some("/a\u{fffd}b".to_string()));
}

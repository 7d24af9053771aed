use file_sharer::digits::{decimal_text, hex16, parse_u64};
use file_sharer::files::{
    default_receive_dir, destination_candidate, ensure_saved_file_path, numbered_name,
    resolve_receive_dir, saved_path, saved_place, KnownDirectory, PublishedFile, SavedPlace,
};
use file_sharer::identity::{device_name, stable_device_id, transfer_id};
use file_sharer::names::{
    json_escape, percent_decode, percent_encode, sanitize_device_name, sanitize_file_name,
};
use file_sharer::text;
use std::collections::hash_map::DefaultHasher;
use std::hash::{Hash, Hasher};

fn some(value: &str) -> Option<String> {
    Some(value.to_string())
}

fn parts(list: &[&str]) -> Vec<String> {
    list.iter().map(|part| part.to_string()).collect()
}

#[test]
fn percent_encoding_round_trips_utf8_names() {
    let name = "季度 报告 01.txt";
    let encoded = percent_encode(name);
    assert_eq!(percent_decode(&encoded).unwrap(), name);
}

#[test]
fn sanitizes_path_like_file_names() {
    assert_eq!(
        sanitize_file_name("../secret:file?.txt"),
        "_secret_file_.txt"
    );
}

#[test]
fn percent_encoding_keeps_only_unreserved_bytes() {
    assert_eq!(percent_encode("aZ09.-_~"), "aZ09.-_~");
    assert_eq!(percent_encode("a b/%é"), "a%20b%2F%25%C3%A9");
    assert_eq!(percent_encode(""), "");
}

#[test]
fn percent_decoding_takes_what_it_can() {
    assert_eq!(percent_decode("%41%6a%4A+").unwrap(), "AjJ+");
    assert_eq!(percent_decode("%+F").unwrap(), "\u{f}");
    for wrong in ["%", "%4", "x%4", "%G1", "%1G", "%-1", "%++", "%中"] {
        assert_eq!(percent_decode(wrong).unwrap_err(), "invalid percent encoding");
    }
    assert_eq!(percent_decode("%FF").unwrap_err(), "invalid utf-8");
    assert_eq!(percent_decode("%FF%").unwrap_err(), "invalid percent encoding");
}

#[test]
fn file_names_lose_what_they_may_not_have() {
    assert_eq!(sanitize_file_name("a/b\\c:d*e?f\"g<h>i|j\0k\u{85}l"), "a_b_c_d_e_f_g_h_i_j_k_l");
    assert_eq!(sanitize_file_name("  .hidden. "), "hidden");
    assert_eq!(sanitize_file_name("..."), "");
    assert_eq!(sanitize_file_name(". a ."), " a ");
    assert_eq!(sanitize_file_name(&sanitize_file_name(". a .")), "a");
    assert_eq!(sanitize_file_name("甘**-开发.docx"), "甘__-开发.docx");
    assert_eq!(sanitize_file_name("\tname\n"), "_name_");
}

#[test]
fn device_names_are_clean() {
    assert_eq!(sanitize_device_name("  my \t  phone\n"), "my phone");
    assert_eq!(sanitize_device_name("a\u{0}b\u{7f}c"), "abc");
    assert_eq!(sanitize_device_name("a\nb"), "ab");
    assert_eq!(sanitize_device_name("一\u{3000}二"), "一 二");
    assert_eq!(sanitize_device_name(" \u{a0} "), "");
    let long = "x".repeat(31) + " yz";
    assert_eq!(sanitize_device_name(&long), "x".repeat(31));
    let longer = "好".repeat(40);
    assert_eq!(sanitize_device_name(&longer), "好".repeat(32));
    let once = sanitize_device_name("  a  b  ");
    assert_eq!(sanitize_device_name(&once), once);
}

#[test]
fn names_agree_with_std_on_every_character() {
    for number in 0..=0x10ffffu32 {
        if let Some(c) = char::from_u32(number) {
            assert_eq!(text::white(c), c.is_whitespace());
            assert_eq!(text::control(c), c.is_control());
        }
    }
}

#[test]
fn json_texts_are_escaped() {
    assert_eq!(json_escape("a\\b\"c\nd\re\tf"), "a\\\\b\\\"c\\nd\\re\tf");
    assert_eq!(json_escape("\\n"), "\\\\n");
}

#[test]
fn texts_are_trimmed_cut_and_compared() {
    assert_eq!(text::trim_white(" \u{2003}a b\r\n"), "a b");
    assert_eq!(text::trim_white(" \n"), "");
    assert_eq!(text::trim_white_end(" a \r\n"), " a");
    assert!(text::blank("\t "));
    assert!(!text::blank("\t x"));
    assert!(text::begins_with("POST /upload HTTP", "POST /upload "));
    assert!(!text::begins_with("POST", "POST "));
    assert!(text::begins_with("x", ""));
    assert!(text::same_text("é", "é"));
    assert!(!text::same_text("é", "e"));
    assert_eq!(text::ascii_lowercase("X-Ä-Z"), "x-Ä-z");
    assert_eq!(text::concat("a", "b"), "ab");
    assert_eq!(text::find(&text::chars_of("ab:c:"), ':'), 2);
    assert_eq!(text::find(&text::chars_of("abc"), ':'), 3);
}

#[test]
fn numbers_are_written_and_read() {
    assert_eq!(decimal_text(0), "0");
    assert_eq!(decimal_text(u64::MAX), "18446744073709551615");
    assert_eq!(parse_u64("18446744073709551615"), Some(u64::MAX));
    assert_eq!(parse_u64("18446744073709551616"), None);
    assert_eq!(parse_u64("99999999999999999999999"), None);
    assert_eq!(parse_u64("+7"), Some(7));
    assert_eq!(parse_u64("007"), Some(7));
    for wrong in ["", "+", "-1", " 1", "1 ", "1a", "++1", "٣"] {
        assert_eq!(parse_u64(wrong), None);
    }
    for number in [0, 9, 10, 99, 100, 12345678901234567890] {
        assert_eq!(parse_u64(&decimal_text(number)), Some(number));
    }
    assert_eq!(hex16(0), "0000000000000000");
    assert_eq!(hex16(0x0123_4567_89ab_cdef), "0123456789abcdef");
}

#[test]
fn duplicate_names_get_numbers() {
    let name = |file: &str, attempt: u32| destination_candidate(file, attempt);
    assert_eq!(name("a.tar.gz", 0), some("a.tar.gz"));
    assert_eq!(name("a.tar.gz", 1), some("a.tar (1).gz"));
    assert_eq!(name("a", 12), some("a (12)"));
    assert_eq!(name("a.", 3), some("a (3)"));
    assert_eq!(name(".bashrc", 4), some(".bashrc (4)"));
    assert_eq!(name("", 1), some("file (1)"));
    assert_eq!(name(".", 1), some("file (1)"));
    assert_eq!(name("..", 1), some("file (1)"));
    assert_eq!(name("...", 1), some(".. (1)"));
    for (path, expected) in [
        ("a/b.txt", "b (1).txt"),
        ("a.d/b", "b (1)"),
        ("a/.bashrc", ".bashrc (1)"),
        ("a/b.txt/", "b (1).txt"),
        ("a/b.txt/./", "b (1).txt"),
        ("a.x//.", "a (1).x"),
        ("./a.b", "a (1).b"),
        ("a/..", "file (1)"),
        ("/", "file (1)"),
        ("./.", "file (1)"),
        ("//", "file (1)"),
    ] {
        assert_eq!(name(path, 0), some(path));
        assert_eq!(name(path, 1), some(expected));
        let std_path = std::path::Path::new(path);
        let stem = std_path.file_stem().and_then(|part| part.to_str()).unwrap_or("file");
        let extension = std_path.extension().and_then(|part| part.to_str());
        let std_name = match extension {
            Some(extension) if !extension.is_empty() => format!("{stem} (1).{extension}"),
            _ => format!("{stem} (1)"),
        };
        assert_eq!(std_name, expected);
    }
    // What is taken for a directory here is up to the system.
    for path in ["a\\b.c", "c:b.c", "//server/share", "\\\\?\\a/b"] {
        let std_path = std::path::Path::new(path);
        let stem = std_path.file_stem().and_then(|part| part.to_str());
        let extension = std_path.extension().and_then(|part| part.to_str());
        let expected = numbered_name(
            stem.map(|part| part.to_string()),
            extension.map(|part| part.to_string()),
            2,
        );
        assert_eq!(name(path, 2), Some(expected));
    }
    assert_eq!(numbered_name(some("a"), some("b"), 7), "a (7).b");
    assert_eq!(numbered_name(some("a"), some(""), 7), "a (7)");
    assert_eq!(numbered_name(None, some("b"), 7), "file (7).b");
    assert_eq!(numbered_name(some("a"), None, 4_294_967_295), "a (4294967295)");
    assert_eq!(name("报告.txt", 9999), some("报告 (9999).txt"));
    assert_eq!(name("报告.txt", 10000), None);
    assert_ne!(name("a.b", 1), name("a.b", 2));
}

#[test]
fn only_received_files_are_opened() {
    let dir = parts(&["/", "downloads", "File Sharer"]);
    let inside = parts(&["/", "downloads", "File Sharer", "a.txt"]);
    let beside = parts(&["/", "downloads", "File Sharer 2", "a.txt"]);
    assert_eq!(ensure_saved_file_path(Ok(dir.clone()), Ok(inside.clone()), true), Ok(()));
    assert_eq!(
        ensure_saved_file_path(Ok(dir.clone()), Ok(inside.clone()), false).unwrap_err(),
        "只能打开文件"
    );
    assert_eq!(
        ensure_saved_file_path(Ok(dir.clone()), Ok(beside), false).unwrap_err(),
        "只能打开本应用接收到的文件"
    );
    assert_eq!(
        ensure_saved_file_path(Ok(inside.clone()), Ok(dir.clone()), true).unwrap_err(),
        "只能打开本应用接收到的文件"
    );
    assert_eq!(
        ensure_saved_file_path(Err("gone".to_string()), Err("lost".to_string()), true).unwrap_err(),
        "接收目录无效：gone"
    );
    assert_eq!(
        ensure_saved_file_path(Ok(dir), Err("lost".to_string()), true).unwrap_err(),
        "文件不存在：lost"
    );
}

#[test]
fn saved_places_are_told_apart() {
    assert!(saved_place("content://media/external/1") == SavedPlace::Published);
    assert!(saved_place("content://other/1") == SavedPlace::Foreign);
    assert!(saved_place("/sdcard/a.txt") == SavedPlace::Path);
    let published = Some(PublishedFile { uri: "content://media/7".to_string() });
    assert_eq!(saved_path(published, "/a"), "content://media/7");
    assert_eq!(saved_path(None, "/a"), "/a");
}

#[test]
fn devices_are_named_after_the_first_thing_known() {
    let name = |a: Option<String>, b: Option<String>, c: Option<String>, d: Option<String>| {
        device_name(a, b, c, d, "linux")
    };
    assert_eq!(name(some("PC"), some("host"), some("u"), some("v")), "PC's linux");
    assert_eq!(name(None, some("host"), some("u"), some("v")), "host's linux");
    assert_eq!(name(None, None, some("u"), some("v")), "u's linux");
    assert_eq!(name(None, None, None, some("v")), "v's linux");
    assert_eq!(name(None, None, None, None), "File Sharer linux");
    assert_eq!(name(some(""), None, None, None), "'s linux");
    assert_eq!(name(some(&"x".repeat(40)), None, None, None), "x".repeat(32));
}

#[test]
fn ids_are_the_hashes_of_what_std_would_hash() {
    let mut hasher = DefaultHasher::new();
    "box's linux".hash(&mut hasher);
    "linux".hash(&mut hasher);
    "me".to_string().hash(&mut hasher);
    assert_eq!(
        stable_device_id("box's linux", "linux", some("me"), some("you")),
        format!("{:016x}", hasher.finish())
    );
    let mut nobody = DefaultHasher::new();
    "n".hash(&mut nobody);
    "p".hash(&mut nobody);
    String::new().hash(&mut nobody);
    assert_eq!(
        stable_device_id("n", "p", None, None),
        format!("{:016x}", nobody.finish())
    );
    assert_eq!(
        stable_device_id("n", "p", None, some("you")),
        stable_device_id("n", "p", some("you"), None)
    );
    let now: u128 = 1_700_000_000_123;
    let mut transfer = DefaultHasher::new();
    "sender".hash(&mut transfer);
    "target".hash(&mut transfer);
    "季度.txt".hash(&mut transfer);
    now.hash(&mut transfer);
    assert_eq!(
        transfer_id("sender", "target", "季度.txt", now),
        format!("{:016x}", transfer.finish())
    );
    assert_ne!(
        transfer_id("sender", "target", "季度.txt", now),
        transfer_id("sender", "target", "季度.txt", now + 1)
    );
}

#[test]
fn received_files_have_a_directory() {
    let default = |downloads: bool, working: bool| {
        let place = default_receive_dir(downloads, working);
        (place.base, place.parts.join("/"))
    };
    let downloads = (KnownDirectory::Home, "Downloads/File Sharer".to_string());
    assert_eq!(default(true, true), downloads);
    assert_eq!(default(true, false), downloads);
    assert_eq!(default(false, true), (KnownDirectory::Working, "received".to_string()));
    assert_eq!(default(false, false), (KnownDirectory::Temporary, "received".to_string()));
    for (downloads, app_data, base) in [
        (true, true, KnownDirectory::Downloads),
        (true, false, KnownDirectory::Downloads),
        (false, true, KnownDirectory::AppData),
        (false, false, KnownDirectory::Temporary),
    ] {
        let place = resolve_receive_dir(downloads, app_data);
        assert_eq!(place.base, base);
        assert_eq!(place.parts, ["File Sharer"]);
    }
}

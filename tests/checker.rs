use header_tool::{CheckerResult, HeaderCacheOp, HeaderChecker};

const TEST_FILE: &'static str = "src/header_tool/somemod/test_header.h";

fn files(list: &[(&str, &str)]) -> Vec<(String, Vec<u8>)> {
    list.iter()
        .map(|(p, c)| (p.to_string(), c.as_bytes().to_vec()))
        .collect()
}

#[test]
fn check_no_operations() {
    let header = files(&[(TEST_FILE, "struct A {};")]);
    let mut first = HeaderChecker::default();
    first.check(&header, "somemod");
    first.close_checks();
    let cache = first.cache_text();

    let mut checker = HeaderChecker::new(&cache);
    checker.check(&header, "somemod");
    checker.close_checks();

    let generate = checker.headers_to_generate();
    assert!(generate.is_empty());

    let delete = checker.headers_to_delete();
    assert!(delete.is_empty());
}

#[test]
fn check_generation_one() {
    let mut checker = HeaderChecker::default();
    let header = files(&[(TEST_FILE, "struct A {};")]);
    checker.check(&header, "somemod");
    checker.close_checks();

    let result = checker.headers_to_generate();
    assert!(!result.is_empty());

    let expected = vec![CheckerResult::new(TEST_FILE, "somemod")];
    assert_eq!(expected, result);
}

#[test]
fn fingerprint_is_the_sha1_hex_digest() {
    let mut checker = HeaderChecker::default();
    checker.check(&files(&[("a.h", "Hello World!")]), "m");
    assert_eq!(
        checker.cache_text(),
        "a.h=2ef7bde608ce5404e97d5f042f95f89f1c232871\n"
    );
}

#[test]
fn changed_byte_gives_update() {
    let mut first = HeaderChecker::default();
    first.check(&files(&[("a.h", "int x;")]), "m");
    first.close_checks();
    let mut second = HeaderChecker::new(&first.cache_text());
    second.check(&files(&[("a.h", "int y;")]), "m");
    second.close_checks();
    assert_eq!(
        second.headers_to_generate(),
        vec![CheckerResult::new("a.h", "m")]
    );
    assert!(second.headers_to_skip().is_empty());
    assert_ne!(second.cache_text(), first.cache_text());
}

#[test]
fn absent_file_is_removed_once() {
    let mut first = HeaderChecker::default();
    first.check(&files(&[("a.h", "1"), ("b.h", "2")]), "m");
    first.close_checks();
    let mut second = HeaderChecker::new(&first.cache_text());
    second.check(&files(&[("a.h", "1")]), "m");
    second.close_checks();
    assert_eq!(second.headers_to_delete(), vec![CheckerResult::new("b.h", "")]);
    assert_eq!(second.headers_to_skip(), vec![CheckerResult::new("a.h", "m")]);
    assert!(!second.cache_text().contains("b.h"));
}

#[test]
fn modules_keep_their_files_and_duplicates_count_once() {
    let mut checker = HeaderChecker::default();
    checker.check(&files(&[("a.h", "1"), ("a.h", "1")]), "core");
    checker.check(&files(&[("b.h", "2"), ("a.h", "1")]), "render");
    checker.close_checks();
    assert_eq!(
        checker.headers_to_generate(),
        vec![
            CheckerResult::new("a.h", "core"),
            CheckerResult::new("b.h", "render")
        ]
    );
}

#[test]
fn known_fingerprints_are_compared() {
    let mut checker = HeaderChecker::new("a.h=aaa\nb.h=bbb\n");
    checker.check_fingerprints(
        &vec![
            ("a.h".to_string(), "aaa".to_string()),
            ("b.h".to_string(), "ccc".to_string()),
            ("c.h".to_string(), "ddd".to_string()),
        ],
        "m",
    );
    checker.close_checks();
    assert_eq!(checker.headers_to_skip(), vec![CheckerResult::new("a.h", "m")]);
    assert_eq!(
        checker.headers_to_generate(),
        vec![CheckerResult::new("b.h", "m"), CheckerResult::new("c.h", "m")]
    );
    assert_eq!(checker.cache_text(), "a.h=aaa\nb.h=ccc\nc.h=ddd\n");
}

#[test]
fn cache_text_reading() {
    assert_eq!(HeaderChecker::new("a=1\n\nb=2").cache_text(), "a=1\nb=2\n");
    assert_eq!(HeaderChecker::new("a=1\na=2\n").cache_text(), "a=2\n");
    assert_eq!(HeaderChecker::new("a=1\nbroken\n").cache_text(), "");
    assert_eq!(HeaderChecker::new("a=1=2\n").cache_text(), "");
    assert_eq!(HeaderChecker::new("").cache_text(), "");
}

#[test]
fn operations_name_their_header() {
    let op = HeaderCacheOp::Update("x.h".to_string(), "f".to_string());
    assert_eq!(op.get_header(), "x.h");
    assert_eq!(HeaderCacheOp::Remove("y.h".to_string(), "g".to_string()).get_header(), "y.h");
}

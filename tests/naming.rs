use header_tool::remover::find_generated;
use header_tool::Generator;

#[test]
fn generated_header_name_ok() {
    let name = "W:/C++/bomb_engine/engine/utilities/file_helper.h";
    let gen = Generator::generated_header_filepath(&name, "somemod");
    assert_eq!(
        Some("generated/headers/somemod/file_helper.generated.h".to_string()),
        gen
    )
}

#[test]
fn generated_json_name_ok() {
    let name = "W:/C++/bomb_engine/engine/utilities/file_helper.h";
    let gen = Generator::generated_json_filepath(&name, "somemod");
    assert_eq!(Some("generated/json/somemod/file_helper.json".to_string()), gen)
}

#[test]
fn every_supported_suffix_is_stripped_once() {
    assert_eq!(
        Generator::generated_header_filepath("a/b/shape.hpp", "geo"),
        Some("generated/headers/geo/shape.generated.h".to_string())
    );
    assert_eq!(
        Generator::generated_json_filepath("mesh.ixx", "geo"),
        Some("generated/json/geo/mesh.json".to_string())
    );
    assert_eq!(
        Generator::generated_json_filepath("x/config.h.h", "m"),
        Some("generated/json/m/config.h.json".to_string())
    );
}

#[test]
fn naming_ignores_directory_depth() {
    let shallow = Generator::generated_header_filepath("file_helper.h", "somemod");
    let deep = Generator::generated_header_filepath("/a/b/c/d/e/file_helper.h", "somemod");
    assert_eq!(shallow, deep);
    assert_eq!(
        shallow,
        Some("generated/headers/somemod/file_helper.generated.h".to_string())
    );
}

#[test]
fn unsupported_suffix_has_no_artifact() {
    assert_eq!(Generator::generated_header_filepath("src/main.cpp", "m"), None);
    assert_eq!(Generator::generated_json_filepath("src/dir/", "m"), None);
    assert_eq!(Generator::generated_json_filepath("", "m"), None);
}

#[test]
fn retired_header_is_found_in_its_old_module() {
    let dirs = vec!["render".to_string(), "core".to_string(), "audio".to_string()];
    let existing = vec![
        "generated/json/core/file_helper.json".to_string(),
        "generated/headers/audio/file_helper.generated.h".to_string(),
    ];
    assert_eq!(
        find_generated("/x/file_helper.h", &dirs, &existing),
        Some("core".to_string())
    );
    assert_eq!(find_generated("/x/other.h", &dirs, &existing), None);
    assert_eq!(find_generated("/x/file_helper.cpp", &dirs, &existing), None);
}

#[test]
fn generator_keeps_parsed_headers() {
    let gen = Generator::new(vec![(header_tool::Namespace::default(), "m".to_string())]);
    assert_eq!(gen.headers().len(), 1);
    assert_eq!(gen.headers()[0].1, "m");
}

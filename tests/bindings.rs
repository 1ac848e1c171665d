use header_tool::bindings::{binding_path_of_ir, plan_module_inits};
use header_tool::{
    generate_header, generate_module_decls, BindingsBuilder, Class, HeaderChecker, ModuleInits,
    Namespace,
};

fn test_namespace() -> Namespace {
    Namespace {
        name: "W:/C++/bomb_engine/engine/mod1/test.h".to_string(),
        ..Namespace::default()
    }
}

#[test]
fn get_iclude_test() {
    let namespace = test_namespace();

    let directive = BindingsBuilder::new(&namespace)
        .unwrap()
        .include_directive(&namespace.name);

    assert_eq!(Some("\n#include \"mod1/test.h\"\n".to_string()), directive);
}

#[test]
fn test_build() {
    let namespace = test_namespace();

    let header = BindingsBuilder::new(&namespace).unwrap().build();

    let expected = r#"
#include "mod1/test.h"
#include <pybind11/pybind11.h>

namespace py = pybind11;

void init_test(py::module &m) {
}
"#;

    assert_eq!(Some(expected.to_string()), header);
}

#[test]
fn binding_file_of_a_header() {
    let namespace = Namespace {
        name: "/home/u/bomb_engine/engine/core/world.h".to_string(),
        classes: vec![Class {
            name: "World".to_string(),
            ..Class::default()
        }],
        ..Namespace::default()
    };
    let (path, content) = generate_header(&namespace).unwrap();
    assert_eq!(path, "generated/py_world.cpp");
    assert_eq!(
        content,
        "\n#include \"core/world.h\"\n#include <pybind11/pybind11.h>\n\nnamespace py = pybind11;\n\n\
         void init_world(py::module &m) {\n\tpy::class_<World>(m, \"World\")\n;\n}\n"
    );
}

#[test]
fn headers_outside_the_engine_or_not_h_have_no_binding() {
    let outside = Namespace {
        name: "/tmp/world.h".to_string(),
        ..Namespace::default()
    };
    assert!(generate_header(&outside).is_none());
    let hpp = Namespace {
        name: "/x/bomb_engine/engine/world.hpp".to_string(),
        ..Namespace::default()
    };
    assert!(BindingsBuilder::new(&hpp).is_none());
    assert!(generate_header(&hpp).is_none());
}

#[test]
fn include_stops_at_a_second_engine_dir() {
    let namespace = test_namespace();
    let builder = BindingsBuilder::new(&namespace).unwrap();
    let path = "a/bomb_engine/engine/x/bomb_engine/engine/y.h".to_string();
    assert_eq!(
        builder.include_directive(&path),
        Some("\n#include \"x/\"\n".to_string())
    );
    assert_eq!(builder.output_path(), "generated/py_test.cpp");
}

#[test]
fn module_decls_list_every_init() {
    let names = vec!["sample".to_string(), "test".to_string()];
    assert_eq!(
        generate_module_decls(&names),
        "#include <pybind11/pybind11.h>\n\nnamespace py = pybind11;\n\n\
         void init_sample(py::module &m);\nvoid init_test(py::module &m);\n\
         void init_pybomb(py::module &m);\n\
         \nPYBIND11_MODULE(bomb_engine, m, py::mod_gil_not_used()) {\n\
         \tinit_sample(m);\n\tinit_test(m);\n\tinit_pybomb(m);\n}"
    );
}

fn json_files(list: &[(&str, &str)]) -> Vec<(String, Vec<u8>)> {
    list.iter()
        .map(|(p, c)| (p.to_string(), c.as_bytes().to_vec()))
        .collect()
}

#[test]
fn module_inits_follow_the_session() {
    let mut first = HeaderChecker::default();
    first.check(
        &json_files(&[("g/json/mod1/sample.json", "{}"), ("g/json/mod1/test.json", "{}")]),
        "mod1",
    );
    first.close_checks();
    match plan_module_inits(&first) {
        ModuleInits::Regenerate(text) => {
            assert_eq!(text, generate_module_decls(&vec!["sample".to_string(), "test".to_string()]))
        }
        other => panic!("unexpected {:?}", other),
    }

    let mut second = HeaderChecker::new(&first.cache_text());
    second.check(
        &json_files(&[("g/json/mod1/sample.json", "{}"), ("g/json/mod1/test.json", "{}")]),
        "mod1",
    );
    second.close_checks();
    assert_eq!(plan_module_inits(&second), ModuleInits::Unchanged);

    let mut third = HeaderChecker::new(&first.cache_text());
    third.check(&json_files(&[("g/json/mod1/test.json", "{\"a\":1}")]), "mod1");
    third.close_checks();
    assert_eq!(
        plan_module_inits(&third),
        ModuleInits::Regenerate(generate_module_decls(&vec!["test".to_string()]))
    );

    let mut bad = HeaderChecker::default();
    bad.check(&json_files(&[("g/json/mod1/notes.txt", "x")]), "mod1");
    bad.close_checks();
    assert_eq!(plan_module_inits(&bad), ModuleInits::Unresolvable);
}

#[test]
fn binding_path_follows_the_ir_file() {
    assert_eq!(
        binding_path_of_ir("gen/json/mod1/sample.json"),
        Some("generated/py_sample.cpp".to_string())
    );
    assert_eq!(binding_path_of_ir("gen/json/mod1/sample.txt"), None);
}

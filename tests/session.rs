use header_tool::{parse_arguments, ArgsError, Module};

fn args(list: &[&str]) -> Vec<String> {
    list.iter().map(|s| s.to_string()).collect()
}

#[test]
fn modules_group_their_headers() {
    let modules = parse_arguments(&args(&[
        "--module=core",
        "a.h",
        "b.h",
        "--module=render",
        "c.h",
    ]))
    .unwrap();
    assert_eq!(modules.len(), 2);
    assert_eq!(modules[0].module_name, "core");
    assert_eq!(modules[0].module_headers, args(&["a.h", "b.h"]));
    assert_eq!(modules[1].module_name, "render");
    assert_eq!(modules[1].module_headers, args(&["c.h"]));
}

#[test]
fn headers_before_any_marker_form_an_unnamed_module() {
    let modules = parse_arguments(&args(&["a.h", "--module=core", "b.h"])).unwrap();
    assert_eq!(modules.len(), 2);
    assert_eq!(modules[0].module_name, "");
    assert_eq!(modules[0].module_headers, args(&["a.h"]));
}

#[test]
fn argument_errors() {
    assert_eq!(parse_arguments(&args(&[])).unwrap_err(), ArgsError::NoArguments);
    assert_eq!(
        parse_arguments(&args(&["--module=", "a.h"])).unwrap_err(),
        ArgsError::MissingModuleName
    );
    assert_eq!(
        parse_arguments(&args(&["--module=a=b", "a.h"])).unwrap_err(),
        ArgsError::MalformedModule
    );
    assert_eq!(
        parse_arguments(&args(&["--module=core", "--module=render", "a.h"])).unwrap_err(),
        ArgsError::EmptyModule
    );
    assert_eq!(
        parse_arguments(&args(&["--module=core", "a.h", "--module=render"])).unwrap_err(),
        ArgsError::EmptyModule
    );
    assert_eq!(ArgsError::NoArguments.message(), "No headers were passed!");
}

#[test]
fn module_emptiness() {
    let mut module = Module::default();
    assert!(module.is_empty());
    module.module_headers.push("a.h".to_string());
    assert!(!module.is_empty());
}

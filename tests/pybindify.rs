use header_tool::AccessModifier::{Private, Protected, Public};
use header_tool::{
    Argument, Class, Enum, Enumerator, Function, Member, Method, Namespace, Pybindify, Struct,
    Variable,
};

#[test]
fn test_argument() {
    let mut argument = Argument::default();
    argument.name = "some_argument".to_string();
    let expected = "py::arg(\"some_argument\")";
    assert_eq!(&argument.to_cpp(""), expected);
}

#[test]
fn test_function_noargs() {
    let mut function = Function::default();
    function.name = "some_function".to_string();
    function.brief = "this is a brief".to_string();

    assert_eq!(
        function.to_cpp("m"),
        "\tm.def(\"some_function\", &some_function, \"this is a brief\");\n"
    );
}

#[test]
fn test_function_one_two_three_args() {
    let mut function = Function {
        name: "some_function".to_string(),
        brief: "this is a brief".to_string(),
        args: vec![Argument {
            name: "arg1".to_string(),
            is_const: false,
            var_type: "".to_string(),
        }],
        is_const: false,
        is_static: false,
        return_type: "".to_string(),
    };

    assert_eq!(
        function.to_cpp("m"),
        "\tm.def(\"some_function\", &some_function, \"this is a brief\", \
        py::arg(\"arg1\"));\n"
    );

    function.args.push(Argument {
        name: "arg2".to_string(),
        is_const: false,
        var_type: "".to_string(),
    });

    assert_eq!(
        function.to_cpp("m"),
        "\tm.def(\"some_function\", &some_function, \"this is a brief\", \
        py::arg(\"arg1\"), py::arg(\"arg2\"));\n"
    );

    function.args.push(Argument {
        name: "arg3".to_string(),
        is_const: false,
        var_type: "".to_string(),
    });

    assert_eq!(
        function.to_cpp("m"),
        "\tm.def(\"some_function\", &some_function, \"this is a brief\", \
        py::arg(\"arg1\"), py::arg(\"arg2\"), py::arg(\"arg3\"));\n"
    );
}

#[test]
fn test_enumerator() {
    let mut enumerator = Enumerator::default();
    enumerator.name = "some_enum".to_string();

    assert_eq!(
        enumerator.to_cpp("myenum"),
        "\t.value(\"some_enum\", myenum::some_enum)"
    );
}

#[test]
fn test_enum() {
    let animal = Enum {
        name: "Animal".to_string(),
        brief: "".to_string(),
        enumerators: vec![
            Enumerator {
                name: "Cat".to_string(),
                s_value: 1,
                u_value: 1,
            },
            Enumerator {
                name: "Dog".to_string(),
                s_value: 1,
                u_value: 1,
            },
            Enumerator {
                name: "Horse".to_string(),
                s_value: 1,
                u_value: 1,
            },
        ],
        underlying_type: "".to_string(),
    };

    assert_eq!(
        animal.to_cpp("m"),
        "\tpy::enum_<Animal>(m, \"Animal\")\n\
    \t.value(\"Cat\", Animal::Cat)\n\
    \t.value(\"Dog\", Animal::Dog)\n\
    \t.value(\"Horse\", Animal::Horse);\n"
    );
}

#[test]
fn test_variable() {
    let mut variable = Variable::default();
    variable.name = "some_variable".to_string();
    assert_eq!(
        variable.to_cpp("m"),
        "\tm.attr(\"some_variable\") = some_variable;\n"
    );
}

#[test]
fn test_method_one_two_three_args() {
    let mut method = Method {
        name: "some_function".to_string(),
        brief: "this is a brief".to_string(),
        access: Public,
        is_pure_virtual: false,
        is_virtual: false,
        args: vec![Argument {
            name: "arg1".to_string(),
            is_const: false,
            var_type: "".to_string(),
        }],
        is_const: false,
        is_static: false,
        return_type: "".to_string(),
        is_overload: false,
    };

    assert_eq!(
        method.to_cpp("m"),
        "\t.def(\"some_function\", &m::some_function, \"this is a brief\", \
        py::arg(\"arg1\"))"
    );

    method.args.push(Argument {
        name: "arg2".to_string(),
        is_const: false,
        var_type: "".to_string(),
    });

    assert_eq!(
        method.to_cpp("m"),
        "\t.def(\"some_function\", &m::some_function, \"this is a brief\", \
        \
        py::arg(\"arg1\"), py::arg(\"arg2\"))"
    );

    method.args.push(Argument {
        name: "arg3".to_string(),
        is_const: false,
        var_type: "".to_string(),
    });

    assert_eq!(
        method.to_cpp("m"),
        "\t.def(\"some_function\", &m::some_function, \"this is a brief\", \
        py::arg(\"arg1\"), py::arg(\"arg2\"), py::arg(\"arg3\"))"
    );
}

fn three_typed_args() -> Vec<Argument> {
    vec![
        Argument {
            name: "arg1".to_string(),
            is_const: false,
            var_type: "int".to_string(),
        },
        Argument {
            name: "arg2".to_string(),
            is_const: false,
            var_type: "const char".to_string(),
        },
        Argument {
            name: "arg3".to_string(),
            is_const: false,
            var_type: "Cat&".to_string(),
        },
    ]
}

#[test]
fn test_method_overload_params() {
    let method = Method {
        name: "some_function".to_string(),
        brief: "this is a brief".to_string(),
        access: Public,
        is_pure_virtual: false,
        is_virtual: false,
        args: three_typed_args(),
        is_const: false,
        is_static: false,
        return_type: "".to_string(),
        is_overload: true,
    };

    assert_eq!(
        method.to_cpp("m"),
        "\t.def(\"some_function\", py::overload_cast<int, const char, Cat&>(&m::some_function), \
        \"this is a brief\", \
        py::arg(\"arg1\"), py::arg(\"arg2\"), py::arg(\"arg3\"))"
    );
}

#[test]
fn method_without_overload_binds_by_address() {
    let method = Method {
        name: "some_function".to_string(),
        brief: "this is a brief".to_string(),
        access: Public,
        args: three_typed_args(),
        is_overload: false,
        ..Method::default()
    };
    assert_eq!(
        method.to_cpp("m"),
        "\t.def(\"some_function\", &m::some_function, \"this is a brief\", \
        py::arg(\"arg1\"), py::arg(\"arg2\"), py::arg(\"arg3\"))"
    );
}

#[test]
fn overloaded_method_without_args() {
    let method = Method {
        name: "run".to_string(),
        brief: "b".to_string(),
        is_overload: true,
        ..Method::default()
    };
    assert_eq!(
        method.to_cpp("Dog"),
        "\t.def(\"run\", py::overload_cast<>(&Dog::run), \"b\")"
    );
}

#[test]
fn test_members() {
    let mut member = Member::default();
    member.name = "some_member".to_string();
    member.brief = "".to_string();
    member.access = Public;

    member.is_static = true;
    member.is_const = true;
    assert_eq!(
        member.to_cpp("m"),
        "\t.def_readonly_static(\"some_member\", &m::some_member)"
    );
    member.is_const = false;
    assert_eq!(
        member.to_cpp("m"),
        "\t.def_readwrite_static(\"some_member\", &m::some_member)"
    );

    member.is_static = false;
    member.is_const = true;
    assert_eq!(
        member.to_cpp("m"),
        "\t.def_readonly(\"some_member\", &m::some_member)"
    );
    member.is_const = false;
    assert_eq!(
        member.to_cpp("m"),
        "\t.def_readwrite(\"some_member\", &m::some_member)"
    );
}

#[test]
fn non_public_entities_bind_nothing() {
    for access in [Protected, Private, header_tool::AccessModifier::Unspecified] {
        let method = Method {
            name: "hidden".to_string(),
            access,
            ..Method::default()
        };
        assert_eq!(method.to_cpp("m"), "");
        let member = Member {
            name: "hidden".to_string(),
            access,
            ..Member::default()
        };
        assert_eq!(member.to_cpp("m"), "");
    }
    let public = Member {
        name: "shown".to_string(),
        ..Member::default()
    };
    assert_eq!(public.to_cpp("m"), "\t.def_readwrite(\"shown\", &m::shown)");
}

#[test]
fn test_class() {
    let class = Class {
        name: "Cat".to_string(),
        brief: "".to_string(),
        size: 123,
        alignment: 16,
        is_abstract: false,
        parents: vec![
            "Animal".to_string(),
            "Mammal".to_string(),
            "Devil".to_string(),
        ],
        constructors: vec![Method {
            name: "Cat".to_string(),
            brief: "ctor".to_string(),
            is_const: false,
            is_static: false,
            is_virtual: false,
            is_pure_virtual: false,
            args: vec![Argument {
                name: "kills".to_string(),
                is_const: true,
                var_type: "const uint64_t".to_string(),
            }],
            access: Public,
            return_type: "".to_string(),
            is_overload: false,
        }],
        destructor: Method::default(),
        members: vec![Member {
            name: "kills_count".to_string(),
            access: Public,
            is_static: false,
            var_type: "uint64_t".to_string(),
            brief: "exactly this".to_string(),
            is_const: false,
            offset: 0,
        }],
        methods: vec![
            Method {
                name: "meow".to_string(),
                brief: "MEOW Motherfucker!".to_string(),
                is_const: false,
                is_static: false,
                is_virtual: false,
                is_pure_virtual: false,
                args: Vec::new(),
                access: Public,
                return_type: "".to_string(),
                is_overload: false,
            },
            Method {
                name: "judge".to_string(),
                brief: "...loser".to_string(),
                is_const: false,
                is_static: false,
                is_virtual: false,
                is_pure_virtual: false,
                args: Vec::new(),
                access: Public,
                return_type: "".to_string(),
                is_overload: false,
            },
        ],
    };

    assert_eq!(
        class.to_cpp("m"),
        "\tpy::class_<Cat, Animal, Mammal, Devil>(m, \"Cat\")\n\
        \t.def(py::init<const uint64_t>(), py::arg(\"kills\"))\n\
        \t.def(\"meow\", &Cat::meow, \"MEOW Motherfucker!\")\n\
        \t.def(\"judge\", &Cat::judge, \"...loser\")\n\
        \t.def_readwrite(\"kills_count\", &Cat::kills_count);\n"
    );
}

#[test]
fn test_struct() {
    let class = Struct {
        name: "Vec3".to_string(),
        brief: "".to_string(),
        size: 123,
        alignment: 16,
        constructors: Vec::new(),
        destructor: Method::default(),
        members: vec![
            Member {
                name: "x".to_string(),
                access: Public,
                is_static: false,
                var_type: "float".to_string(),
                brief: "x component".to_string(),
                is_const: false,
                offset: 0,
            },
            Member {
                name: "y".to_string(),
                access: Public,
                is_static: false,
                var_type: "float".to_string(),
                brief: "y component".to_string(),
                is_const: false,
                offset: 4,
            },
            Member {
                name: "z".to_string(),
                access: Public,
                is_static: false,
                var_type: "float".to_string(),
                brief: "z component".to_string(),
                is_const: false,
                offset: 8,
            },
        ],
        methods: Vec::new(),
    };

    assert_eq!(
        class.to_cpp("m"),
        "\tpy::class_<Vec3>(m, \"Vec3\")\n\
        \t.def_readwrite(\"x\", &Vec3::x)\n\
        \t.def_readwrite(\"y\", &Vec3::y)\n\
        \t.def_readwrite(\"z\", &Vec3::z);\n"
    );
}

#[test]
fn constructor_without_args() {
    let class = Class {
        name: "Box".to_string(),
        constructors: vec![Method::default()],
        ..Class::default()
    };
    assert_eq!(
        class.to_cpp("m"),
        "\tpy::class_<Box>(m, \"Box\")\n\t.def(py::init<>())\n;\n"
    );
}

#[test]
fn namespace_opens_submodule_and_nests() {
    let inner = Namespace {
        name: "physics".to_string(),
        variables: vec![Variable {
            name: "gravity".to_string(),
            ..Variable::default()
        }],
        ..Namespace::default()
    };
    let engine = Namespace {
        name: "bomb_engine".to_string(),
        functions: vec![Function {
            name: "tick".to_string(),
            brief: "b".to_string(),
            ..Function::default()
        }],
        namespaces: vec![inner],
        ..Namespace::default()
    };
    let root = Namespace {
        name: "/src/bomb_engine/engine/core/world.h".to_string(),
        namespaces: vec![engine],
        ..Namespace::default()
    };
    assert_eq!(
        root.to_cpp("m"),
        "\tm.def(\"tick\", &tick, \"b\");\n\
         \tusing namespace physics;\n\
         auto physics = m.def_submodule(\"physics\", \"\");\n\
         \tphysics.attr(\"gravity\") = gravity;\n"
    );
}

#[test]
fn struct_converts_to_class_and_back() {
    let st = Struct {
        name: "Vec2".to_string(),
        size: 8,
        alignment: 4,
        members: vec![Member {
            name: "x".to_string(),
            ..Member::default()
        }],
        ..Struct::default()
    };
    let class = Class::from_struct(&st);
    assert_eq!(class.name, "Vec2");
    assert_eq!(class.size, 8);
    assert!(class.parents.is_empty());
    assert!(!class.is_abstract);
    assert_eq!(class.members, st.members);
    let back = Struct::from_class(class);
    assert_eq!(back, st);
    assert_eq!(back.to_class().alignment, 4);
}

//! Binding text for each entity of the IR.
//!
//! Every entity turns into a fixed template. Methods and members that are not
//! public contribute nothing. The text depends only on the entity and on the
//! scope it is bound in, so the same IR always gives the same bytes.

use vstd::prelude::*;
use crate::ir::{
    args_view, class_of_struct, members_view, methods_view, namespace_view, namespaces_view,
    strings_view, AccessModifier, Argument, ArgumentV, Class, ClassV, Enum, EnumV, Enumerator,
    EnumeratorV, Function, FunctionV, Member, MemberV, Method, MethodV, Namespace, NamespaceV,
    Struct, Variable, VariableV,
};
use crate::text::{ends_with, has_prefix, has_suffix, join_strings, same_text, seq_join};

verus! {

/// An entity of the IR that can be written as binding text.
pub trait Pybindify {
    /// The text bound for `self` inside the scope `module`.
    spec fn cpp_binding(&self, module: Seq<char>) -> Seq<char>;

    fn to_cpp(&self, module: &str) -> (r: String)
        ensures
            r@ == self.cpp_binding(module@),
    ;
}

pub open spec fn arg_text(a: ArgumentV) -> Seq<char> {
    "py::arg(\""@ + a.name + "\")"@
}

/// The argument markers, separated by commas.
pub open spec fn args_text(args: Seq<ArgumentV>) -> Seq<char> {
    seq_join(args.map_values(|a: ArgumentV| arg_text(a)), ", "@)
}

/// The argument markers after a leading comma, or nothing without arguments.
pub open spec fn args_tail(args: Seq<ArgumentV>) -> Seq<char> {
    if args.len() == 0 {
        Seq::empty()
    } else {
        ", "@ + args_text(args)
    }
}

/// The argument types, separated by commas.
pub open spec fn arg_types_text(args: Seq<ArgumentV>) -> Seq<char> {
    seq_join(args.map_values(|a: ArgumentV| a.var_type), ", "@)
}

pub open spec fn enumerator_text(e: EnumeratorV, enum_name: Seq<char>) -> Seq<char> {
    "\t.value(\""@ + e.name + "\", "@ + enum_name + "::"@ + e.name + ")"@
}

pub open spec fn enum_text(e: EnumV, module: Seq<char>) -> Seq<char> {
    "\tpy::enum_<"@ + e.name + ">("@ + module + ", \""@ + e.name + "\")\n"@
        + seq_join(e.enumerators.map_values(|x: EnumeratorV| enumerator_text(x, e.name)), "\n"@)
        + ";\n"@
}

pub open spec fn variable_text(v: VariableV, module: Seq<char>) -> Seq<char> {
    "\t"@ + module + ".attr(\""@ + v.name + "\") = "@ + v.name + ";\n"@
}

pub open spec fn function_text(f: FunctionV, module: Seq<char>) -> Seq<char> {
    "\t"@ + module + ".def(\""@ + f.name + "\", &"@ + f.name + ", \""@ + f.brief + "\""@
        + args_tail(f.args) + ");\n"@
}

/// The accessor that binds a member: read-only when const, static when static.
pub open spec fn member_accessor(is_static: bool, is_const: bool) -> Seq<char> {
    if is_static {
        if is_const {
            "\t.def_readonly_static(\""@
        } else {
            "\t.def_readwrite_static(\""@
        }
    } else {
        if is_const {
            "\t.def_readonly(\""@
        } else {
            "\t.def_readwrite(\""@
        }
    }
}

pub open spec fn member_text(m: MemberV, owner: Seq<char>) -> Seq<char> {
    if m.access != AccessModifier::Public {
        Seq::empty()
    } else {
        member_accessor(m.is_static, m.is_const) + m.name + "\", &"@ + owner + "::"@ + m.name
            + ")"@
    }
}

/// A public method binds by address, through an explicit cast to its
/// argument types when it is overloaded.
pub open spec fn method_text(m: MethodV, owner: Seq<char>) -> Seq<char> {
    if m.access != AccessModifier::Public {
        Seq::empty()
    } else if m.is_overload {
        "\t.def(\""@ + m.name + "\", py::overload_cast<"@ + arg_types_text(m.args) + ">"@ + "(&"@
            + owner + "::"@ + m.name + "), \""@ + m.brief + "\""@ + args_tail(m.args) + ")"@
    } else {
        "\t.def(\""@ + m.name + "\", &"@ + owner + "::"@ + m.name + ", \""@ + m.brief + "\""@
            + args_tail(m.args) + ")"@
    }
}

pub open spec fn ctor_text(c: MethodV) -> Seq<char> {
    "\t.def(py::init<"@ + arg_types_text(c.args) + ">()"@ + args_tail(c.args) + ")"@
}

/// The parents after a leading comma, or nothing without parents.
pub open spec fn parents_text(parents: Seq<Seq<char>>) -> Seq<char> {
    if parents.len() == 0 {
        Seq::empty()
    } else {
        ", "@ + seq_join(parents, ", "@)
    }
}

pub open spec fn ctors_text(ctors: Seq<MethodV>) -> Seq<char> {
    if ctors.len() == 0 {
        Seq::empty()
    } else {
        seq_join(ctors.map_values(|c: MethodV| ctor_text(c)), "\n"@) + "\n"@
    }
}

pub open spec fn methods_text(methods: Seq<MethodV>, owner: Seq<char>) -> Seq<char> {
    if methods.len() == 0 {
        Seq::empty()
    } else {
        seq_join(methods.map_values(|m: MethodV| method_text(m, owner)), "\n"@) + "\n"@
    }
}

pub open spec fn members_text(members: Seq<MemberV>, owner: Seq<char>) -> Seq<char> {
    seq_join(members.map_values(|m: MemberV| member_text(m, owner)), "\n"@)
}

/// A class: its declaration with its parents, then its constructors, its
/// methods and its members, then the terminator.
pub open spec fn class_text(c: ClassV, module: Seq<char>) -> Seq<char> {
    "\tpy::class_<"@ + c.name + parents_text(c.parents) + ">("@ + module + ", \""@ + c.name
        + "\")\n"@ + ctors_text(c.constructors) + methods_text(c.methods, c.name) + members_text(
        c.members,
        c.name,
    ) + ";\n"@
}

/// Namespaces whose contents are bound in the enclosing scope.
pub open spec fn is_transparent(name: Seq<char>) -> bool {
    name == "bomb_engine"@ || name.len() == 0 || name == "std"@ || has_suffix(name, ".h"@)
        || has_suffix(name, ".hpp"@) || has_suffix(name, ".ixx"@)
}

/// The scope in which the contents of namespace `name` are bound.
pub open spec fn scope_of(name: Seq<char>, module: Seq<char>) -> Seq<char> {
    if is_transparent(name) {
        module
    } else {
        name
    }
}

/// The declaration of the submodule that a namespace opens, if any.
pub open spec fn submodule_text(name: Seq<char>, module: Seq<char>) -> Seq<char> {
    if is_transparent(name) {
        Seq::empty()
    } else {
        "\tusing namespace "@ + name + ";\n"@ + "auto "@ + name + " = "@ + module
            + ".def_submodule(\""@ + name + "\", \"\");\n"@
    }
}

/// A namespace: its submodule if it opens one, then its classes, structs,
/// functions, enums, variables and nested namespaces, bound in its scope.
pub open spec fn namespace_text(n: NamespaceV, module: Seq<char>) -> Seq<char>
    decreases n, 0int,
{
    let cur = scope_of(n.name, module);
    submodule_text(n.name, module) + seq_join(
        n.classes.map_values(|c: ClassV| class_text(c, cur)),
        "\n"@,
    ) + seq_join(n.structs.map_values(|s| class_text(class_of_struct(s), cur)), "\n"@)
        + seq_join(n.functions.map_values(|f: FunctionV| function_text(f, cur)), "\n"@)
        + seq_join(n.enums.map_values(|e: EnumV| enum_text(e, cur)), "\n"@) + seq_join(
        n.variables.map_values(|v: VariableV| variable_text(v, cur)),
        "\n"@,
    ) + namespaces_text(n.namespaces, cur)
}

/// Nested namespaces, one after the other, separated by line breaks.
pub open spec fn namespaces_text(s: Seq<NamespaceV>, module: Seq<char>) -> Seq<char>
    decreases s, 0int,
{
    if s.len() == 0 {
        Seq::empty()
    } else if s.len() == 1 {
        namespace_text(s[0], module)
    } else {
        namespaces_text(s.drop_last(), module) + "\n"@ + namespace_text(s.last(), module)
    }
}

/// The texts of `items` in `module`, in order.
pub open spec fn bindings_of<T: Pybindify>(items: Seq<T>, module: Seq<char>) -> Seq<Seq<char>> {
    items.map_values(|x: T| x.cpp_binding(module))
}

/// The texts of all `items`, separated by `separator`.
pub fn get_entities_code<T: Pybindify>(items: &Vec<T>, module: &str, separator: &str) -> (r: String)
    ensures
        r@ == seq_join(bindings_of(items@, module@), separator@),
{
    let ghost texts = bindings_of(items@, module@);
    let mut r = String::new();
    let mut i: usize = 0;
    while i < items.len()
        invariant
            i <= items.len(),
            texts == bindings_of(items@, module@),
            r@ == seq_join(texts.take(i as int), separator@),
        decreases items.len() - i,
    {
        if i > 0 {
            r.append(separator);
        }
        let t = items[i].to_cpp(module);
        r.append(t.as_str());
        assert(texts.take(i + 1).drop_last() =~= texts.take(i as int));
        i += 1;
    }
    assert(texts.take(i as int) =~= texts);
    r
}

fn arg_types(args: &Vec<Argument>) -> (r: String)
    ensures
        r@ == arg_types_text(args_view(args@)),
{
    let ghost texts = args_view(args@).map_values(|a: ArgumentV| a.var_type);
    let mut r = String::new();
    let mut i: usize = 0;
    while i < args.len()
        invariant
            i <= args.len(),
            texts == args_view(args@).map_values(|a: ArgumentV| a.var_type),
            r@ == seq_join(texts.take(i as int), ", "@),
        decreases args.len() - i,
    {
        if i > 0 {
            r.append(", ");
        }
        r.append(args[i].var_type.as_str());
        assert(texts.take(i + 1).drop_last() =~= texts.take(i as int));
        i += 1;
    }
    assert(texts.take(i as int) =~= texts);
    r
}

fn args_tail_code(args: &Vec<Argument>) -> (r: String)
    ensures
        r@ == args_tail(args_view(args@)),
{
    let mut r = String::new();
    if args.len() > 0 {
        r.append(", ");
        let t = get_entities_code(args, "", ", ");
        assert(bindings_of(args@, ""@) =~= args_view(args@).map_values(|a: ArgumentV| arg_text(a)));
        r.append(t.as_str());
    }
    r
}

impl Pybindify for Argument {
    open spec fn cpp_binding(&self, module: Seq<char>) -> Seq<char> {
        arg_text(self@)
    }

    fn to_cpp(&self, _module: &str) -> (r: String) {
        let mut r = String::new();
        r.append("py::arg(\"");
        r.append(self.name.as_str());
        r.append("\")");
        r
    }
}

impl Pybindify for Enumerator {
    open spec fn cpp_binding(&self, module: Seq<char>) -> Seq<char> {
        enumerator_text(self@, module)
    }

    fn to_cpp(&self, enum_name: &str) -> (r: String) {
        let mut r = String::new();
        r.append("\t.value(\"");
        r.append(self.name.as_str());
        r.append("\", ");
        r.append(enum_name);
        r.append("::");
        r.append(self.name.as_str());
        r.append(")");
        r
    }
}

impl Pybindify for Enum {
    open spec fn cpp_binding(&self, module: Seq<char>) -> Seq<char> {
        enum_text(self@, module)
    }

    fn to_cpp(&self, module: &str) -> (r: String) {
        let mut r = String::new();
        r.append("\tpy::enum_<");
        r.append(self.name.as_str());
        r.append(">(");
        r.append(module);
        r.append(", \"");
        r.append(self.name.as_str());
        r.append("\")\n");
        let values = get_entities_code(&self.enumerators, self.name.as_str(), "\n");
        assert(bindings_of(self.enumerators@, self.name@) =~= self@.enumerators.map_values(
            |x: EnumeratorV| enumerator_text(x, self.name@),
        ));
        r.append(values.as_str());
        r.append(";\n");
        r
    }
}

impl Pybindify for Variable {
    open spec fn cpp_binding(&self, module: Seq<char>) -> Seq<char> {
        variable_text(self@, module)
    }

    fn to_cpp(&self, module: &str) -> (r: String) {
        let mut r = String::new();
        r.append("\t");
        r.append(module);
        r.append(".attr(\"");
        r.append(self.name.as_str());
        r.append("\") = ");
        r.append(self.name.as_str());
        r.append(";\n");
        r
    }
}

impl Pybindify for Function {
    open spec fn cpp_binding(&self, module: Seq<char>) -> Seq<char> {
        function_text(self@, module)
    }

    fn to_cpp(&self, module: &str) -> (r: String) {
        let mut r = String::new();
        r.append("\t");
        r.append(module);
        r.append(".def(\"");
        r.append(self.name.as_str());
        r.append("\", &");
        r.append(self.name.as_str());
        r.append(", \"");
        r.append(self.brief.as_str());
        r.append("\"");
        let tail = args_tail_code(&self.args);
        r.append(tail.as_str());
        r.append(");\n");
        r
    }
}

impl Pybindify for Member {
    open spec fn cpp_binding(&self, module: Seq<char>) -> Seq<char> {
        member_text(self@, module)
    }

    fn to_cpp(&self, module: &str) -> (r: String) {
        let mut r = String::new();
        if self.access != AccessModifier::Public {
            return r;
        }
        if self.is_static {
            if self.is_const {
                r.append("\t.def_readonly_static(\"");
            } else {
                r.append("\t.def_readwrite_static(\"");
            }
        } else {
            if self.is_const {
                r.append("\t.def_readonly(\"");
            } else {
                r.append("\t.def_readwrite(\"");
            }
        }
        r.append(self.name.as_str());
        r.append("\", &");
        r.append(module);
        r.append("::");
        r.append(self.name.as_str());
        r.append(")");
        r
    }
}

impl Pybindify for Method {
    open spec fn cpp_binding(&self, module: Seq<char>) -> Seq<char> {
        method_text(self@, module)
    }

    fn to_cpp(&self, module: &str) -> (r: String) {
        let mut r = String::new();
        if self.access != AccessModifier::Public {
            return r;
        }
        r.append("\t.def(\"");
        r.append(self.name.as_str());
        if self.is_overload {
            r.append("\", py::overload_cast<");
            let types = arg_types(&self.args);
            r.append(types.as_str());
            r.append(">");
            r.append("(&");
            r.append(module);
            r.append("::");
            r.append(self.name.as_str());
            r.append("), \"");
        } else {
            r.append("\", &");
            r.append(module);
            r.append("::");
            r.append(self.name.as_str());
            r.append(", \"");
        }
        r.append(self.brief.as_str());
        r.append("\"");
        let tail = args_tail_code(&self.args);
        r.append(tail.as_str());
        r.append(")");
        r
    }
}

/// The binding of a constructor: an initializer over its argument types.
pub fn ctor_to_cpp(ctor: &Method) -> (r: String)
    ensures
        r@ == ctor_text(ctor@),
{
    let mut r = String::new();
    r.append("\t.def(py::init<");
    let types = arg_types(&ctor.args);
    r.append(types.as_str());
    r.append(">()");
    let tail = args_tail_code(&ctor.args);
    r.append(tail.as_str());
    r.append(")");
    r
}

fn ctors_code(ctors: &Vec<Method>) -> (r: String)
    ensures
        r@ == ctors_text(methods_view(ctors@)),
{
    let ghost texts = methods_view(ctors@).map_values(|c: MethodV| ctor_text(c));
    let mut r = String::new();
    let mut i: usize = 0;
    while i < ctors.len()
        invariant
            i <= ctors.len(),
            texts == methods_view(ctors@).map_values(|c: MethodV| ctor_text(c)),
            r@ == seq_join(texts.take(i as int), "\n"@),
        decreases ctors.len() - i,
    {
        if i > 0 {
            r.append("\n");
        }
        let t = ctor_to_cpp(&ctors[i]);
        r.append(t.as_str());
        assert(texts.take(i + 1).drop_last() =~= texts.take(i as int));
        i += 1;
    }
    assert(texts.take(i as int) =~= texts);
    if ctors.len() > 0 {
        r.append("\n");
    }
    r
}

impl Pybindify for Class {
    open spec fn cpp_binding(&self, module: Seq<char>) -> Seq<char> {
        class_text(self@, module)
    }

    fn to_cpp(&self, module: &str) -> (r: String) {
        let mut r = String::new();
        r.append("\tpy::class_<");
        r.append(self.name.as_str());
        if self.parents.len() > 0 {
            r.append(", ");
            let parents = join_strings(&self.parents, ", ");
            assert(self.parents@.map_values(|t: String| t@) =~= strings_view(self.parents@));
            r.append(parents.as_str());
        }
        r.append(">(");
        r.append(module);
        r.append(", \"");
        r.append(self.name.as_str());
        r.append("\")\n");
        let ctors = ctors_code(&self.constructors);
        r.append(ctors.as_str());
        if self.methods.len() > 0 {
            let methods = get_entities_code(&self.methods, self.name.as_str(), "\n");
            assert(bindings_of(self.methods@, self.name@) =~= methods_view(
                self.methods@,
            ).map_values(|m: MethodV| method_text(m, self.name@)));
            r.append(methods.as_str());
            r.append("\n");
        }
        let members = get_entities_code(&self.members, self.name.as_str(), "\n");
        assert(bindings_of(self.members@, self.name@) =~= members_view(self.members@).map_values(
            |m: MemberV| member_text(m, self.name@),
        ));
        r.append(members.as_str());
        r.append(";\n");
        r
    }
}

impl Pybindify for Struct {
    open spec fn cpp_binding(&self, module: Seq<char>) -> Seq<char> {
        class_text(class_of_struct(self@), module)
    }

    fn to_cpp(&self, module: &str) -> (r: String) {
        Class::from_struct(self).to_cpp(module)
    }
}

proof fn lemma_prefix_of_concat(a: Seq<char>, b: Seq<char>, p: Seq<char>)
    requires
        has_prefix(a, p),
    ensures
        has_prefix(a + b, p),
{
    assert((a + b).subrange(0, p.len() as int) =~= a.subrange(0, p.len() as int));
}

/// Access filtering: a method or a data member that is not public contributes
/// nothing to the binding text; a public one contributes its non-empty
/// template, which starts with its binding call.
pub proof fn lemma_access_filtering(m: MethodV, mem: MemberV, owner: Seq<char>)
    ensures
        m.access != AccessModifier::Public ==> method_text(m, owner) == Seq::<char>::empty(),
        mem.access != AccessModifier::Public ==> member_text(mem, owner) == Seq::<char>::empty(),
        m.access == AccessModifier::Public ==> method_text(m, owner).len() > 0 && has_prefix(
            method_text(m, owner),
            "\t.def(\""@,
        ),
        mem.access == AccessModifier::Public ==> member_text(mem, owner).len() > 0 && has_prefix(
            member_text(mem, owner),
            member_accessor(mem.is_static, mem.is_const),
        ),
{
    reveal_strlit("\t.def(\"");
    reveal_strlit("\t.def_readonly_static(\"");
    reveal_strlit("\t.def_readwrite_static(\"");
    reveal_strlit("\t.def_readonly(\"");
    reveal_strlit("\t.def_readwrite(\"");
    let lit = "\t.def(\""@;
    let acc = member_accessor(mem.is_static, mem.is_const);
    assert(lit.subrange(0, lit.len() as int) =~= lit);
    assert(acc.subrange(0, acc.len() as int) =~= acc);
    assert forall|x: Seq<char>, y: Seq<char>| has_prefix(x, lit) implies #[trigger] has_prefix(
        x + y,
        lit,
    ) by {
        lemma_prefix_of_concat(x, y, lit);
    }
    assert forall|x: Seq<char>, y: Seq<char>| has_prefix(x, acc) implies #[trigger] has_prefix(
        x + y,
        acc,
    ) by {
        lemma_prefix_of_concat(x, y, acc);
    }
}

/// Whether namespace `name` is bound in the enclosing scope.
fn transparent_name(name: &str) -> (r: bool)
    ensures
        r == is_transparent(name@),
{
    same_text(name, "bomb_engine") || name.unicode_len() == 0 || same_text(name, "std")
        || ends_with(name, ".h") || ends_with(name, ".hpp") || ends_with(name, ".ixx")
}

proof fn lemma_namespaces_view(s: Seq<Namespace>)
    ensures
        namespaces_view(s).len() == s.len(),
        forall|i: int| 0 <= i < s.len() ==> #[trigger] namespaces_view(s)[i] == namespace_view(s[i]),
    decreases s.len(),
{
    if s.len() > 0 {
        lemma_namespaces_view(s.drop_last());
    }
}

/// The binding text of a namespace and of everything below it.
#[verifier::rlimit(40)]
pub fn namespace_to_cpp(ns: &Namespace, module: &str) -> (r: String)
    ensures
        r@ == namespace_text(ns@, module@),
    decreases ns,
{
    let transparent = transparent_name(ns.name.as_str());
    let cur: &str = if transparent {
        module
    } else {
        ns.name.as_str()
    };
    let mut r = String::new();
    if !transparent {
        r.append("\tusing namespace ");
        r.append(cur);
        r.append(";\n");
        r.append("auto ");
        r.append(cur);
        r.append(" = ");
        r.append(module);
        r.append(".def_submodule(\"");
        r.append(cur);
        r.append("\", \"\");\n");
    }
    let classes = get_entities_code(&ns.classes, cur, "\n");
    assert(bindings_of(ns.classes@, cur@) =~= ns@.classes.map_values(
        |c: ClassV| class_text(c, cur@),
    ));
    r.append(classes.as_str());
    let structs = get_entities_code(&ns.structs, cur, "\n");
    assert(bindings_of(ns.structs@, cur@) =~= ns@.structs.map_values(
        |s| class_text(class_of_struct(s), cur@),
    ));
    r.append(structs.as_str());
    let functions = get_entities_code(&ns.functions, cur, "\n");
    assert(bindings_of(ns.functions@, cur@) =~= ns@.functions.map_values(
        |f: FunctionV| function_text(f, cur@),
    ));
    r.append(functions.as_str());
    let enums = get_entities_code(&ns.enums, cur, "\n");
    assert(bindings_of(ns.enums@, cur@) =~= ns@.enums.map_values(|e: EnumV| enum_text(e, cur@)));
    r.append(enums.as_str());
    let variables = get_entities_code(&ns.variables, cur, "\n");
    assert(bindings_of(ns.variables@, cur@) =~= ns@.variables.map_values(
        |v: VariableV| variable_text(v, cur@),
    ));
    r.append(variables.as_str());
    let ghost pre = r@;
    let ghost subs = ns.namespaces@;
    let mut i: usize = 0;
    while i < ns.namespaces.len()
        invariant
            i <= subs.len(),
            subs == ns.namespaces@,
            r@ == pre + namespaces_text(namespaces_view(subs.take(i as int)), cur@),
        decreases subs.len() - i,
    {
        proof {
            lemma_namespaces_view(subs.take(i as int));
            assert(subs.take(i + 1).drop_last() =~= subs.take(i as int));
            let v = namespaces_view(subs.take(i as int));
            let x = namespace_view(subs[i as int]);
            assert(namespaces_view(subs.take(i + 1)) == v.push(x));
            assert(v.push(x).drop_last() =~= v);
        }
        if i > 0 {
            r.append("\n");
        }
        let t = namespace_to_cpp(&ns.namespaces[i], cur);
        r.append(t.as_str());
        i += 1;
    }
    assert(subs.take(i as int) =~= subs);
    r
}

impl Pybindify for Namespace {
    open spec fn cpp_binding(&self, module: Seq<char>) -> Seq<char> {
        namespace_text(self@, module)
    }

    fn to_cpp(&self, module: &str) -> (r: String) {
        namespace_to_cpp(self, module)
    }
}

} // verus!

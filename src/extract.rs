//! Extraction of the IR from the entity tree of a C++ front-end.
//!
//! The front-end is not part of the library: it hands over, for each header,
//! a tree of [`SourceEntity`] values that carry the answers to the queries
//! the extractor makes. Missing answers degrade to empty strings and zeros.

use vstd::prelude::*;
use crate::ir::{
    args_view, classes_view, enums_view, functions_view, namespace_view, namespaces_view,
    structs_view, variables_view, AccessModifier, Argument, ArgumentV, Class, ClassV,
    Enum, EnumV, Enumerator, EnumeratorV, Function, FunctionV, Member, MemberV, Method, MethodV,
    Namespace, NamespaceV, Struct, StructV, Variable, VariableV, members_view, methods_view,
    strings_view, struct_of_class,
};
use crate::text::{has_prefix, same_text, starts_with};

verus! {

/// Kind of an entity, as far as extraction tells kinds apart.
#[derive(Debug, Clone, Copy, PartialEq, Eq, Structural)]
pub enum EntityKind {
    Namespace,
    ClassDecl,
    StructDecl,
    EnumDecl,
    FunctionDecl,
    VarDecl,
    Method,
    FieldDecl,
    EnumConstantDecl,
    AnnotateAttr,
    Other,
}

/// Accessibility of a member as the front-end reports it.
#[derive(Debug, Clone, Copy, PartialEq, Eq, Structural)]
pub enum Accessibility {
    Public,
    Protected,
    Private,
}

/// An entity of the front-end's tree with the answers to the queries made
/// on it. An absent answer is `None`.
#[derive(Debug)]
pub struct SourceEntity {
    pub kind: EntityKind,
    pub display_name: Option<String>,
    /// The entity is declared in the header being parsed.
    pub in_main_file: bool,
    pub has_attributes: bool,
    pub accessibility: Option<Accessibility>,
    /// The storage class is `static`.
    pub static_storage: bool,
    pub is_static_method: bool,
    pub is_const_method: bool,
    pub is_virtual_method: bool,
    pub is_pure_virtual_method: bool,
    /// Display name of the entity's type.
    pub type_display: Option<String>,
    /// The entity's type is const-qualified.
    pub type_is_const: bool,
    /// Size of the entity's type in bytes.
    pub size: Option<usize>,
    /// Alignment of the entity's type in bytes.
    pub alignment: Option<usize>,
    /// Offset of a field inside its owner, in bits.
    pub offset_bits: Option<usize>,
    /// Display name of a function's result type.
    pub result_type: Option<String>,
    /// Display name of an enum's underlying type.
    pub underlying_type: Option<String>,
    pub comment_brief: Option<String>,
    /// Value of an enumerator, read as signed and as unsigned.
    pub enum_value: Option<(i64, u64)>,
    /// Arguments of a function or method.
    pub arguments: Option<Vec<SourceEntity>>,
    pub children: Vec<SourceEntity>,
}

/// The text of an optional answer, empty when absent.
pub open spec fn text_or_empty(o: Option<String>) -> Seq<char> {
    match o {
        Some(s) => s@,
        None => Seq::empty(),
    }
}

/// `c` is the annotation `marker`.
pub open spec fn is_annotation(c: SourceEntity, marker: Seq<char>) -> bool {
    c.kind == EntityKind::AnnotateAttr && match c.display_name {
        Some(n) => n@ == marker,
        None => false,
    }
}

/// An entity carries the annotation `marker` among its attributes.
pub open spec fn marked(e: SourceEntity, marker: Seq<char>) -> bool {
    e.has_attributes && exists|i: int|
        0 <= i < e.children@.len() && is_annotation(#[trigger] e.children@[i], marker)
}

pub open spec fn access_of(a: Option<Accessibility>) -> AccessModifier {
    match a {
        Some(Accessibility::Public) => AccessModifier::Public,
        Some(Accessibility::Protected) => AccessModifier::Protected,
        Some(Accessibility::Private) => AccessModifier::Private,
        None => AccessModifier::Unspecified,
    }
}

pub open spec fn extract_argument(e: SourceEntity) -> ArgumentV {
    ArgumentV {
        name: text_or_empty(e.display_name),
        var_type: text_or_empty(e.type_display),
        is_const: e.type_is_const,
    }
}

pub open spec fn arguments_of(e: SourceEntity) -> Seq<ArgumentV> {
    match e.arguments {
        Some(args) => args@.map_values(|a: SourceEntity| extract_argument(a)),
        None => Seq::empty(),
    }
}

/// A method, unless it is hidden.
pub open spec fn extract_method(e: SourceEntity) -> Option<MethodV> {
    if marked(e, "hide"@) {
        None
    } else {
        Some(
            MethodV {
                name: text_or_empty(e.display_name),
                brief: text_or_empty(e.comment_brief),
                return_type: text_or_empty(e.result_type),
                args: arguments_of(e),
                access: access_of(e.accessibility),
                is_virtual: e.is_virtual_method,
                is_pure_virtual: e.is_pure_virtual_method,
                is_static: e.is_static_method,
                is_const: e.is_const_method,
                is_overload: false,
            },
        )
    }
}

/// A type name without a leading `const `.
pub open spec fn without_const(t: Seq<char>) -> Seq<char> {
    if has_prefix(t, "const "@) {
        t.subrange(6, t.len() as int)
    } else {
        t
    }
}

/// A data member, unless it is hidden; its offset is converted from bits to
/// bytes, and is zero when unknown.
pub open spec fn extract_member(e: SourceEntity) -> Option<MemberV> {
    if marked(e, "hide"@) {
        None
    } else {
        Some(
            MemberV {
                name: text_or_empty(e.display_name),
                brief: text_or_empty(e.comment_brief),
                var_type: without_const(text_or_empty(e.type_display)),
                is_static: false,
                is_const: e.type_is_const,
                access: access_of(e.accessibility),
                offset: match e.offset_bits {
                    Some(b) => b / 8,
                    None => 0,
                },
            },
        )
    }
}

/// Static data members are entities of static storage that are not static
/// methods, whatever their kind.
pub open spec fn is_static_member(e: SourceEntity) -> bool {
    e.static_storage && !e.is_static_method
}

/// The static data members among `children` that are not hidden, in order.
pub open spec fn static_members_in(children: Seq<SourceEntity>) -> Seq<MemberV>
    decreases children.len(),
{
    if children.len() == 0 {
        Seq::empty()
    } else {
        let rest = static_members_in(children.drop_last());
        let c = children.last();
        if is_static_member(c) && extract_member(c) is Some {
            rest.push(MemberV { is_static: true, ..extract_member(c)->0 })
        } else {
            rest
        }
    }
}

pub open spec fn extract_enumerator(e: SourceEntity) -> Option<EnumeratorV> {
    Some(
        EnumeratorV {
            name: text_or_empty(e.display_name),
            s_value: match e.enum_value {
                Some(v) => v.0,
                None => 0,
            },
            u_value: match e.enum_value {
                Some(v) => v.1,
                None => 0,
            },
        },
    )
}

/// An exposed class: its methods, then its data members, then its static
/// data members.
pub open spec fn extract_class(e: SourceEntity) -> Option<ClassV> {
    if !marked(e, "expose"@) {
        None
    } else {
        Some(
            ClassV {
                name: text_or_empty(e.display_name),
                brief: text_or_empty(e.comment_brief),
                size: match e.size {
                    Some(n) => n,
                    None => 0,
                },
                alignment: match e.alignment {
                    Some(n) => n,
                    None => 0,
                },
                constructors: Seq::empty(),
                destructor: Method::default_view(),
                members: fields_in(e.children@) + static_members_in(e.children@),
                methods: methods_in(e.children@),
                is_abstract: false,
                parents: Seq::empty(),
            },
        )
    }
}

/// An exposed struct, extracted as a class.
pub open spec fn extract_struct(e: SourceEntity) -> Option<StructV> {
    match extract_class(e) {
        Some(c) => Some(struct_of_class(c)),
        None => None,
    }
}

pub open spec fn extract_enum(e: SourceEntity) -> Option<EnumV> {
    if !marked(e, "expose"@) {
        None
    } else {
        Some(
            EnumV {
                name: text_or_empty(e.display_name),
                brief: text_or_empty(e.comment_brief),
                underlying_type: text_or_empty(e.underlying_type),
                enumerators: enumerators_in(e.children@),
            },
        )
    }
}

pub open spec fn extract_function(e: SourceEntity) -> Option<FunctionV> {
    if !marked(e, "expose"@) {
        None
    } else {
        Some(
            FunctionV {
                name: text_or_empty(e.display_name),
                brief: text_or_empty(e.comment_brief),
                return_type: text_or_empty(e.result_type),
                args: arguments_of(e),
                is_static: e.is_static_method,
                is_const: e.is_const_method,
            },
        )
    }
}

pub open spec fn extract_variable(e: SourceEntity) -> Option<VariableV> {
    if !marked(e, "expose"@) {
        None
    } else {
        Some(
            VariableV {
                name: text_or_empty(e.display_name),
                brief: text_or_empty(e.comment_brief),
                var_type: text_or_empty(e.type_display),
                is_static: e.static_storage,
                is_const: e.type_is_const,
            },
        )
    }
}

/// The methods among `children` that are not hidden, in order.
pub open spec fn methods_in(children: Seq<SourceEntity>) -> Seq<MethodV>
    decreases children.len(),
{
    if children.len() == 0 {
        Seq::empty()
    } else {
        let rest = methods_in(children.drop_last());
        let c = children.last();
        if c.kind == EntityKind::Method && extract_method(c) is Some {
            rest.push(extract_method(c)->0)
        } else {
            rest
        }
    }
}

/// The data members among `children` that are not hidden, in order.
pub open spec fn fields_in(children: Seq<SourceEntity>) -> Seq<MemberV>
    decreases children.len(),
{
    if children.len() == 0 {
        Seq::empty()
    } else {
        let rest = fields_in(children.drop_last());
        let c = children.last();
        if c.kind == EntityKind::FieldDecl && extract_member(c) is Some {
            rest.push(extract_member(c)->0)
        } else {
            rest
        }
    }
}

/// The enumerators among `children`, in order.
pub open spec fn enumerators_in(children: Seq<SourceEntity>) -> Seq<EnumeratorV>
    decreases children.len(),
{
    if children.len() == 0 {
        Seq::empty()
    } else {
        let rest = enumerators_in(children.drop_last());
        let c = children.last();
        if c.kind == EntityKind::EnumConstantDecl && extract_enumerator(c) is Some {
            rest.push(extract_enumerator(c)->0)
        } else {
            rest
        }
    }
}

/// The exposed classes among `children`, in order.
pub open spec fn classes_in(children: Seq<SourceEntity>) -> Seq<ClassV>
    decreases children.len(),
{
    if children.len() == 0 {
        Seq::empty()
    } else {
        let rest = classes_in(children.drop_last());
        let c = children.last();
        if c.kind == EntityKind::ClassDecl && extract_class(c) is Some {
            rest.push(extract_class(c)->0)
        } else {
            rest
        }
    }
}

/// The exposed structs among `children`, in order.
pub open spec fn structs_in(children: Seq<SourceEntity>) -> Seq<StructV>
    decreases children.len(),
{
    if children.len() == 0 {
        Seq::empty()
    } else {
        let rest = structs_in(children.drop_last());
        let c = children.last();
        if c.kind == EntityKind::StructDecl && extract_struct(c) is Some {
            rest.push(extract_struct(c)->0)
        } else {
            rest
        }
    }
}

/// The exposed functions among `children`, in order.
pub open spec fn functions_in(children: Seq<SourceEntity>) -> Seq<FunctionV>
    decreases children.len(),
{
    if children.len() == 0 {
        Seq::empty()
    } else {
        let rest = functions_in(children.drop_last());
        let c = children.last();
        if c.kind == EntityKind::FunctionDecl && extract_function(c) is Some {
            rest.push(extract_function(c)->0)
        } else {
            rest
        }
    }
}

/// The exposed enums among `children`, in order.
pub open spec fn enums_in(children: Seq<SourceEntity>) -> Seq<EnumV>
    decreases children.len(),
{
    if children.len() == 0 {
        Seq::empty()
    } else {
        let rest = enums_in(children.drop_last());
        let c = children.last();
        if c.kind == EntityKind::EnumDecl && extract_enum(c) is Some {
            rest.push(extract_enum(c)->0)
        } else {
            rest
        }
    }
}

/// The exposed variables among `children`, in order.
pub open spec fn variables_in(children: Seq<SourceEntity>) -> Seq<VariableV>
    decreases children.len(),
{
    if children.len() == 0 {
        Seq::empty()
    } else {
        let rest = variables_in(children.drop_last());
        let c = children.last();
        if c.kind == EntityKind::VarDecl && extract_variable(c) is Some {
            rest.push(extract_variable(c)->0)
        } else {
            rest
        }
    }
}

/// A namespace declared in the header: what its children hold, by kind,
/// each list in declaration order.
pub open spec fn extract_namespace(e: SourceEntity) -> Option<NamespaceV>
    decreases e, 0int,
{
    if !e.in_main_file {
        None
    } else {
        Some(
            NamespaceV {
                name: text_or_empty(e.display_name),
                namespaces: namespaces_in(e.children@),
                classes: classes_in(e.children@),
                structs: structs_in(e.children@),
                functions: functions_in(e.children@),
                enums: enums_in(e.children@),
                variables: variables_in(e.children@),
            },
        )
    }
}

/// The namespaces among `children` that are declared in the header, in order.
pub open spec fn namespaces_in(children: Seq<SourceEntity>) -> Seq<NamespaceV>
    decreases children, 0int,
{
    if children.len() == 0 {
        Seq::empty()
    } else {
        let rest = namespaces_in(children.drop_last());
        let c = children.last();
        if c.kind == EntityKind::Namespace && extract_namespace(c) is Some {
            rest.push(extract_namespace(c)->0)
        } else {
            rest
        }
    }
}

/// The model of an optional value.
pub open spec fn opt_view<T: View>(o: Option<T>) -> Option<T::V> {
    match o {
        Some(x) => Some(x@),
        None => None,
    }
}

pub open spec fn enumerators_view(s: Seq<Enumerator>) -> Seq<EnumeratorV> {
    s.map_values(|x: Enumerator| x@)
}

fn text_of(o: &Option<String>) -> (r: String)
    ensures
        r@ == text_or_empty(*o),
{
    match o {
        Some(s) => s.clone(),
        None => String::new(),
    }
}

fn access_from(a: Option<Accessibility>) -> (r: AccessModifier)
    ensures
        r == access_of(a),
{
    match a {
        Some(Accessibility::Public) => AccessModifier::Public,
        Some(Accessibility::Protected) => AccessModifier::Protected,
        Some(Accessibility::Private) => AccessModifier::Private,
        None => AccessModifier::Unspecified,
    }
}

/// Whether the entity carries the annotation `marker`.
fn marked_as(e: &SourceEntity, marker: &str) -> (r: bool)
    ensures
        r == marked(*e, marker@),
{
    if !e.has_attributes {
        return false;
    }
    let mut i: usize = 0;
    while i < e.children.len()
        invariant
            i <= e.children.len(),
            e.has_attributes,
            forall|k: int| 0 <= k < i ==> !is_annotation(#[trigger] e.children@[k], marker@),
        decreases e.children.len() - i,
    {
        let c = &e.children[i];
        if c.kind == EntityKind::AnnotateAttr {
            match &c.display_name {
                Some(n) => {
                    if same_text(n.as_str(), marker) {
                        assert(is_annotation(e.children@[i as int], marker@));
                        assert(marked(*e, marker@));
                        return true;
                    }
                },
                None => {},
            }
        }
        i += 1;
    }
    false
}

fn parse_args(e: &SourceEntity) -> (r: Vec<Argument>)
    ensures
        args_view(r@) == arguments_of(*e),
{
    let mut r: Vec<Argument> = Vec::new();
    match &e.arguments {
        Some(args) => {
            let ghost target = args@.map_values(|a: SourceEntity| extract_argument(a));
            let mut i: usize = 0;
            while i < args.len()
                invariant
                    i <= args.len(),
                    target == args@.map_values(|a: SourceEntity| extract_argument(a)),
                    args_view(r@) == target.take(i as int),
                decreases args.len() - i,
            {
                let a = &args[i];
                let ghost before = r@;
                r.push(
                    Argument {
                        name: text_of(&a.display_name),
                        var_type: text_of(&a.type_display),
                        is_const: a.type_is_const,
                    },
                );
                assert(args_view(r@) =~= args_view(before).push(r@[i as int]@));
                assert(target.take(i + 1) =~= target.take(i as int).push(target[i as int]));
                assert(args_view(r@) =~= target.take(i + 1));
                i += 1;
            }
            assert(target.take(i as int) =~= target);
        },
        None => {
            assert(args_view(r@) =~= Seq::empty());
        },
    }
    r
}

fn parse_method(e: &SourceEntity) -> (r: Option<Method>)
    ensures
        opt_view(r) == extract_method(*e),
{
    if marked_as(e, "hide") {
        return None;
    }
    Some(
        Method {
            name: text_of(&e.display_name),
            brief: text_of(&e.comment_brief),
            return_type: text_of(&e.result_type),
            args: parse_args(e),
            access: access_from(e.accessibility),
            is_virtual: e.is_virtual_method,
            is_pure_virtual: e.is_pure_virtual_method,
            is_static: e.is_static_method,
            is_const: e.is_const_method,
            is_overload: false,
        },
    )
}

fn strip_const(t: String) -> (r: String)
    ensures
        r@ == without_const(t@),
{
    if starts_with(t.as_str(), "const ") {
        proof {
            reveal_strlit("const ");
        }
        let n = t.as_str().unicode_len();
        t.as_str().substring_char(6, n).to_owned()
    } else {
        t
    }
}

fn parse_member(e: &SourceEntity, is_static: bool) -> (r: Option<Member>)
    ensures
        r is None <==> extract_member(*e) is None,
        r matches Some(m) ==> m@ == (MemberV { is_static, ..extract_member(*e)->0 }),
{
    if marked_as(e, "hide") {
        return None;
    }
    let offset = match e.offset_bits {
        Some(b) => b / 8,
        None => 0,
    };
    Some(
        Member {
            name: text_of(&e.display_name),
            brief: text_of(&e.comment_brief),
            var_type: strip_const(text_of(&e.type_display)),
            is_static,
            is_const: e.type_is_const,
            access: access_from(e.accessibility),
            offset,
        },
    )
}

fn parse_enumerator(e: &SourceEntity) -> (r: Option<Enumerator>)
    ensures
        opt_view(r) == extract_enumerator(*e),
{
    let (s_value, u_value) = match e.enum_value {
        Some(v) => v,
        None => (0, 0),
    };
    Some(Enumerator { name: text_of(&e.display_name), s_value, u_value })
}

fn parse_field(e: &SourceEntity) -> (r: Option<Member>)
    ensures
        opt_view(r) == extract_member(*e),
{
    parse_member(e, false)
}

fn parse_class(e: &SourceEntity) -> (r: Option<Class>)
    ensures
        opt_view(r) == extract_class(*e),
{
    if !marked_as(e, "expose") {
        return None;
    }
    let mut methods: Vec<Method> = Vec::new();
    let mut i: usize = 0;
    while i < e.children.len()
        invariant
            i <= e.children.len(),
            methods_view(methods@) == methods_in(e.children@.take(i as int)),
        decreases e.children.len() - i,
    {
        let c = &e.children[i];
        assert(e.children@.take(i + 1).drop_last() =~= e.children@.take(i as int));
        if c.kind == EntityKind::Method {
            match parse_method(c) {
                Some(x) => {
                    methods.push(x);
                    assert(methods_view(methods@) =~= methods_in(e.children@.take(i as int)).push(x@));
                },
                None => {},
            }
        }
        i += 1;
    }
    assert(e.children@.take(i as int) =~= e.children@);
    let mut members: Vec<Member> = Vec::new();
    let mut i: usize = 0;
    while i < e.children.len()
        invariant
            i <= e.children.len(),
            members_view(members@) == fields_in(e.children@.take(i as int)),
        decreases e.children.len() - i,
    {
        let c = &e.children[i];
        assert(e.children@.take(i + 1).drop_last() =~= e.children@.take(i as int));
        if c.kind == EntityKind::FieldDecl {
            match parse_field(c) {
                Some(x) => {
                    members.push(x);
                    assert(members_view(members@) =~= fields_in(e.children@.take(i as int)).push(x@));
                },
                None => {},
            }
        }
        i += 1;
    }
    assert(e.children@.take(i as int) =~= e.children@);
    let ghost fields = members_view(members@);
    let mut i: usize = 0;
    while i < e.children.len()
        invariant
            i <= e.children.len(),
            members_view(members@) == fields + static_members_in(e.children@.take(i as int)),
        decreases e.children.len() - i,
    {
        let c = &e.children[i];
        assert(e.children@.take(i + 1).drop_last() =~= e.children@.take(i as int));
        if c.static_storage && !c.is_static_method {
            match parse_member(c, true) {
                Some(x) => {
                    let ghost before = members@;
                    assert(e.children@.take(i + 1).last() == e.children@[i as int]);
                    assert(static_members_in(e.children@.take(i + 1)) == static_members_in(
                        e.children@.take(i as int),
                    ).push(x@));
                    members.push(x);
                    assert(members_view(members@) =~= members_view(before).push(x@));
                    assert(members_view(members@) =~= fields + static_members_in(
                        e.children@.take(i as int),
                    ).push(x@));
                },
                None => {},
            }
        }
        i += 1;
    }
    assert(e.children@.take(i as int) =~= e.children@);
    let destructor = Method {
        name: String::new(),
        brief: String::new(),
        return_type: String::new(),
        args: Vec::new(),
        access: AccessModifier::Public,
        is_virtual: false,
        is_pure_virtual: false,
        is_static: false,
        is_const: false,
        is_overload: false,
    };
    assert(args_view(destructor.args@) =~= Seq::empty());
    let r = Class {
        name: text_of(&e.display_name),
        brief: text_of(&e.comment_brief),
        size: match e.size {
            Some(n) => n,
            None => 0,
        },
        alignment: match e.alignment {
            Some(n) => n,
            None => 0,
        },
        constructors: Vec::new(),
        destructor,
        members,
        methods,
        is_abstract: false,
        parents: Vec::new(),
    };
    assert(methods_view(r.constructors@) =~= Seq::empty());
    assert(strings_view(r.parents@) =~= Seq::empty());
    Some(r)
}

fn parse_struct(e: &SourceEntity) -> (r: Option<Struct>)
    ensures
        opt_view(r) == extract_struct(*e),
{
    match parse_class(e) {
        Some(c) => Some(Struct::from_class(c)),
        None => None,
    }
}

fn parse_enum(e: &SourceEntity) -> (r: Option<Enum>)
    ensures
        opt_view(r) == extract_enum(*e),
{
    if !marked_as(e, "expose") {
        return None;
    }
    let mut enumerators: Vec<Enumerator> = Vec::new();
    let mut i: usize = 0;
    while i < e.children.len()
        invariant
            i <= e.children.len(),
            enumerators_view(enumerators@) == enumerators_in(e.children@.take(i as int)),
        decreases e.children.len() - i,
    {
        let c = &e.children[i];
        assert(e.children@.take(i + 1).drop_last() =~= e.children@.take(i as int));
        if c.kind == EntityKind::EnumConstantDecl {
            match parse_enumerator(c) {
                Some(x) => {
                    enumerators.push(x);
                    assert(enumerators_view(enumerators@) =~= enumerators_in(e.children@.take(i as int)).push(x@));
                },
                None => {},
            }
        }
        i += 1;
    }
    assert(e.children@.take(i as int) =~= e.children@);
    let r = Enum {
        name: text_of(&e.display_name),
        brief: text_of(&e.comment_brief),
        underlying_type: text_of(&e.underlying_type),
        enumerators,
    };
    assert(r@.enumerators =~= enumerators_in(e.children@));
    Some(r)
}

fn parse_func(e: &SourceEntity) -> (r: Option<Function>)
    ensures
        opt_view(r) == extract_function(*e),
{
    if !marked_as(e, "expose") {
        return None;
    }
    Some(
        Function {
            name: text_of(&e.display_name),
            brief: text_of(&e.comment_brief),
            return_type: text_of(&e.result_type),
            args: parse_args(e),
            is_static: e.is_static_method,
            is_const: e.is_const_method,
        },
    )
}

fn parse_variable(e: &SourceEntity) -> (r: Option<Variable>)
    ensures
        opt_view(r) == extract_variable(*e),
{
    if !marked_as(e, "expose") {
        return None;
    }
    Some(
        Variable {
            name: text_of(&e.display_name),
            brief: text_of(&e.comment_brief),
            var_type: text_of(&e.type_display),
            is_static: e.static_storage,
            is_const: e.type_is_const,
        },
    )
}

/// The namespace of an entity declared in the header, with what it holds.
fn parse_namespace(e: &SourceEntity) -> (r: Option<Namespace>)
    ensures
        opt_view(r) == extract_namespace(*e),
    decreases e,
{
    if !e.in_main_file {
        return None;
    }
    let mut ns = Namespace {
        name: text_of(&e.display_name),
        namespaces: Vec::new(),
        classes: Vec::new(),
        structs: Vec::new(),
        functions: Vec::new(),
        enums: Vec::new(),
        variables: Vec::new(),
    };
    assert(namespaces_view(ns.namespaces@) =~= Seq::empty());
    assert(classes_view(ns.classes@) =~= Seq::empty());
    assert(structs_view(ns.structs@) =~= Seq::empty());
    assert(functions_view(ns.functions@) =~= Seq::empty());
    assert(enums_view(ns.enums@) =~= Seq::empty());
    assert(variables_view(ns.variables@) =~= Seq::empty());
    let mut i: usize = 0;
    while i < e.children.len()
        invariant
            i <= e.children.len(),
            ns.name@ == text_or_empty(e.display_name),
            namespaces_view(ns.namespaces@) == namespaces_in(e.children@.take(i as int)),
            classes_view(ns.classes@) == classes_in(e.children@.take(i as int)),
            structs_view(ns.structs@) == structs_in(e.children@.take(i as int)),
            functions_view(ns.functions@) == functions_in(e.children@.take(i as int)),
            enums_view(ns.enums@) == enums_in(e.children@.take(i as int)),
            variables_view(ns.variables@) == variables_in(e.children@.take(i as int)),
        decreases e.children.len() - i,
    {
        let c = &e.children[i];
        assert(e.children@.take(i + 1).drop_last() =~= e.children@.take(i as int));
        assert(e.children@.take(i + 1).last() == e.children@[i as int]);
        match c.kind {
            EntityKind::Namespace => {
                match parse_namespace(c) {
                    Some(x) => {
                        let ghost before = ns.namespaces@;
                        ns.namespaces.push(x);
                        assert(ns.namespaces@.drop_last() =~= before);
                        assert(namespaces_view(ns.namespaces@) == namespaces_view(before).push(
                            namespace_view(x),
                        ));
                    },
                    None => {},
                }
            },
            EntityKind::ClassDecl => {
                match parse_class(c) {
                    Some(x) => {
                        let ghost before = ns.classes@;
                        ns.classes.push(x);
                        assert(classes_view(ns.classes@) =~= classes_view(before).push(x@));
                    },
                    None => {},
                }
            },
            EntityKind::StructDecl => {
                match parse_struct(c) {
                    Some(x) => {
                        let ghost before = ns.structs@;
                        ns.structs.push(x);
                        assert(structs_view(ns.structs@) =~= structs_view(before).push(x@));
                    },
                    None => {},
                }
            },
            EntityKind::FunctionDecl => {
                match parse_func(c) {
                    Some(x) => {
                        let ghost before = ns.functions@;
                        ns.functions.push(x);
                        assert(functions_view(ns.functions@) =~= functions_view(before).push(x@));
                    },
                    None => {},
                }
            },
            EntityKind::EnumDecl => {
                match parse_enum(c) {
                    Some(x) => {
                        let ghost before = ns.enums@;
                        ns.enums.push(x);
                        assert(enums_view(ns.enums@) =~= enums_view(before).push(x@));
                    },
                    None => {},
                }
            },
            EntityKind::VarDecl => {
                match parse_variable(c) {
                    Some(x) => {
                        let ghost before = ns.variables@;
                        ns.variables.push(x);
                        assert(variables_view(ns.variables@) =~= variables_view(before).push(x@));
                    },
                    None => {},
                }
            },
            _ => {},
        }
        i += 1;
    }
    assert(e.children@.take(i as int) =~= e.children@);
    Some(ns)
}

/// Extracts the IR of headers from their front-end trees.
pub struct HeaderParser {}

impl HeaderParser {
    pub fn new() -> (r: HeaderParser) {
        HeaderParser {  }
    }

    /// The IR of one header: the namespace of its root entity, or an empty
    /// namespace when the root is not declared in the header.
    pub fn parse_header(&self, root: &SourceEntity) -> (r: Namespace)
        ensures
            extract_namespace(*root) matches Some(n) ==> r@ == n,
            extract_namespace(*root) is None ==> r@ == Namespace::default_view(),
    {
        match parse_namespace(root) {
            Some(n) => n,
            None => {
                let r = Namespace {
                    name: String::new(),
                    namespaces: Vec::new(),
                    classes: Vec::new(),
                    structs: Vec::new(),
                    functions: Vec::new(),
                    enums: Vec::new(),
                    variables: Vec::new(),
                };
                assert(namespaces_view(r.namespaces@) =~= Seq::empty());
                assert(classes_view(r.classes@) =~= Seq::empty());
                assert(structs_view(r.structs@) =~= Seq::empty());
                assert(functions_view(r.functions@) =~= Seq::empty());
                assert(enums_view(r.enums@) =~= Seq::empty());
                assert(variables_view(r.variables@) =~= Seq::empty());
                assert(r@ == Namespace::default_view());
                r
            },
        }
    }

    /// The IR of each header, in order.
    pub fn parse_header_collection(&self, roots: &Vec<SourceEntity>) -> (r: Vec<Namespace>)
        ensures
            r.len() == roots.len(),
            forall|i: int| 0 <= i < roots.len() ==> (#[trigger] r@[i])@ == header_ir(roots@[i]),
    {
        let mut r: Vec<Namespace> = Vec::new();
        let mut i: usize = 0;
        while i < roots.len()
            invariant
                i <= roots.len(),
                r.len() == i,
                forall|k: int| 0 <= k < i ==> (#[trigger] r@[k])@ == header_ir(roots@[k]),
            decreases roots.len() - i,
        {
            r.push(self.parse_header(&roots[i]));
            i += 1;
        }
        r
    }
}

/// The IR of a header's root entity: its namespace, or the empty namespace.
pub open spec fn header_ir(root: SourceEntity) -> NamespaceV {
    match extract_namespace(root) {
        Some(n) => n,
        None => Namespace::default_view(),
    }
}

} // verus!

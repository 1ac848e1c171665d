//! The intermediate representation of the exposed entities of a header.
//!
//! Every collection keeps the order in which the entities were declared. A
//! value of this tree holds no reference outside itself: it is compared and
//! copied by value.

use vstd::prelude::*;

verus! {

/// Visibility of a method or a data member inside its owner.
#[derive(Debug, Clone, Copy, PartialEq, Eq, Structural, Default)]
pub enum AccessModifier {
    #[default]
    Public,
    Protected,
    Private,
    /// The front-end reported no accessibility.
    Unspecified,
}

/// Mathematical model of an [`Argument`].
pub ghost struct ArgumentV {
    pub name: Seq<char>,
    pub var_type: Seq<char>,
    pub is_const: bool,
}

/// Mathematical model of a [`Function`].
pub ghost struct FunctionV {
    pub name: Seq<char>,
    pub brief: Seq<char>,
    pub return_type: Seq<char>,
    pub args: Seq<ArgumentV>,
    pub is_static: bool,
    pub is_const: bool,
}

/// Mathematical model of a [`Method`].
pub ghost struct MethodV {
    pub name: Seq<char>,
    pub brief: Seq<char>,
    pub return_type: Seq<char>,
    pub args: Seq<ArgumentV>,
    pub access: AccessModifier,
    pub is_virtual: bool,
    pub is_pure_virtual: bool,
    pub is_static: bool,
    pub is_const: bool,
    pub is_overload: bool,
}

/// Mathematical model of a [`Variable`].
pub ghost struct VariableV {
    pub name: Seq<char>,
    pub brief: Seq<char>,
    pub var_type: Seq<char>,
    pub is_static: bool,
    pub is_const: bool,
}

/// Mathematical model of a [`Member`].
pub ghost struct MemberV {
    pub name: Seq<char>,
    pub brief: Seq<char>,
    pub var_type: Seq<char>,
    pub is_static: bool,
    pub is_const: bool,
    pub access: AccessModifier,
    pub offset: usize,
}

/// Mathematical model of a [`Class`].
pub ghost struct ClassV {
    pub name: Seq<char>,
    pub brief: Seq<char>,
    pub size: usize,
    pub alignment: usize,
    pub constructors: Seq<MethodV>,
    pub destructor: MethodV,
    pub members: Seq<MemberV>,
    pub methods: Seq<MethodV>,
    pub is_abstract: bool,
    pub parents: Seq<Seq<char>>,
}

/// Mathematical model of a [`Struct`].
pub ghost struct StructV {
    pub name: Seq<char>,
    pub brief: Seq<char>,
    pub size: usize,
    pub alignment: usize,
    pub constructors: Seq<MethodV>,
    pub destructor: MethodV,
    pub members: Seq<MemberV>,
    pub methods: Seq<MethodV>,
}

/// Mathematical model of an [`Enumerator`].
pub ghost struct EnumeratorV {
    pub name: Seq<char>,
    pub s_value: i64,
    pub u_value: u64,
}

/// Mathematical model of an [`Enum`].
pub ghost struct EnumV {
    pub name: Seq<char>,
    pub brief: Seq<char>,
    pub underlying_type: Seq<char>,
    pub enumerators: Seq<EnumeratorV>,
}

/// Mathematical model of a [`Namespace`].
pub ghost struct NamespaceV {
    pub name: Seq<char>,
    pub namespaces: Seq<NamespaceV>,
    pub classes: Seq<ClassV>,
    pub structs: Seq<StructV>,
    pub functions: Seq<FunctionV>,
    pub enums: Seq<EnumV>,
    pub variables: Seq<VariableV>,
}

/// An argument of a function, method or constructor.
#[derive(Default, Debug, PartialEq)]
pub struct Argument {
    pub name: String,
    pub var_type: String,
    pub is_const: bool,
}

/// A free function.
#[derive(Default, Debug, PartialEq)]
pub struct Function {
    pub name: String,
    pub brief: String,
    pub return_type: String,
    pub args: Vec<Argument>,
    pub is_static: bool,
    pub is_const: bool,
}

/// A method or a constructor of a class or struct.
#[derive(Default, Debug, PartialEq)]
pub struct Method {
    pub name: String,
    pub brief: String,
    pub return_type: String,
    pub args: Vec<Argument>,
    pub access: AccessModifier,
    pub is_virtual: bool,
    pub is_pure_virtual: bool,
    pub is_static: bool,
    pub is_const: bool,
    /// Another method of the same owner has the same name.
    pub is_overload: bool,
}

/// A variable declared at namespace scope.
#[derive(Default, Debug, PartialEq)]
pub struct Variable {
    pub name: String,
    pub brief: String,
    pub var_type: String,
    pub is_static: bool,
    pub is_const: bool,
}

/// A data member of a class or struct.
#[derive(Default, Debug, PartialEq)]
pub struct Member {
    pub name: String,
    pub brief: String,
    pub var_type: String,
    pub is_static: bool,
    pub is_const: bool,
    pub access: AccessModifier,
    /// Byte offset inside the owner.
    pub offset: usize,
}

/// A class, with its layout, its parents and its exposed parts.
#[derive(Default, Debug, PartialEq)]
pub struct Class {
    pub name: String,
    pub brief: String,
    pub size: usize,
    pub alignment: usize,
    pub constructors: Vec<Method>,
    pub destructor: Method,
    pub members: Vec<Member>,
    pub methods: Vec<Method>,
    pub is_abstract: bool,
    /// Names of the base classes, in declaration order.
    pub parents: Vec<String>,
}

/// An enumeration.
#[derive(Default, Debug, PartialEq)]
pub struct Enum {
    pub name: String,
    pub brief: String,
    pub underlying_type: String,
    pub enumerators: Vec<Enumerator>,
}

/// One value of an enumeration, read both as signed and as unsigned.
#[derive(Default, Debug, PartialEq)]
pub struct Enumerator {
    pub name: String,
    pub s_value: i64,
    pub u_value: u64,
}

/// A namespace. The root of a header is a namespace too: its name is the
/// header's path, and the namespaces below it carry their own names.
#[derive(Default, Debug, PartialEq)]
pub struct Namespace {
    pub name: String,
    pub namespaces: Vec<Namespace>,
    pub classes: Vec<Class>,
    pub structs: Vec<Struct>,
    pub functions: Vec<Function>,
    pub enums: Vec<Enum>,
    pub variables: Vec<Variable>,
}

/// A struct: a class without inheritance information.
#[derive(Default, Debug, PartialEq)]
pub struct Struct {
    pub name: String,
    pub brief: String,
    pub size: usize,
    pub alignment: usize,
    pub constructors: Vec<Method>,
    pub destructor: Method,
    pub members: Vec<Member>,
    pub methods: Vec<Method>,
}

impl Method {
    /// The model of `Method::default()`.
    pub open spec fn default_view() -> MethodV {
        MethodV {
            name: Seq::empty(),
            brief: Seq::empty(),
            return_type: Seq::empty(),
            args: Seq::empty(),
            access: AccessModifier::Public,
            is_virtual: false,
            is_pure_virtual: false,
            is_static: false,
            is_const: false,
            is_overload: false,
        }
    }
}

impl Namespace {
    /// The model of `Namespace::default()`.
    pub open spec fn default_view() -> NamespaceV {
        NamespaceV {
            name: Seq::empty(),
            namespaces: Seq::empty(),
            classes: Seq::empty(),
            structs: Seq::empty(),
            functions: Seq::empty(),
            enums: Seq::empty(),
            variables: Seq::empty(),
        }
    }
}

pub open spec fn args_view(s: Seq<Argument>) -> Seq<ArgumentV> {
    s.map_values(|a: Argument| a@)
}

pub open spec fn methods_view(s: Seq<Method>) -> Seq<MethodV> {
    s.map_values(|m: Method| m@)
}

pub open spec fn members_view(s: Seq<Member>) -> Seq<MemberV> {
    s.map_values(|m: Member| m@)
}

pub open spec fn classes_view(s: Seq<Class>) -> Seq<ClassV> {
    s.map_values(|c: Class| c@)
}

pub open spec fn structs_view(s: Seq<Struct>) -> Seq<StructV> {
    s.map_values(|c: Struct| c@)
}

pub open spec fn functions_view(s: Seq<Function>) -> Seq<FunctionV> {
    s.map_values(|f: Function| f@)
}

pub open spec fn enums_view(s: Seq<Enum>) -> Seq<EnumV> {
    s.map_values(|e: Enum| e@)
}

pub open spec fn variables_view(s: Seq<Variable>) -> Seq<VariableV> {
    s.map_values(|v: Variable| v@)
}

pub open spec fn strings_view(s: Seq<String>) -> Seq<Seq<char>> {
    s.map_values(|t: String| t@)
}

impl View for Argument {
    type V = ArgumentV;

    open spec fn view(&self) -> ArgumentV {
        ArgumentV { name: self.name@, var_type: self.var_type@, is_const: self.is_const }
    }
}

impl View for Function {
    type V = FunctionV;

    open spec fn view(&self) -> FunctionV {
        FunctionV {
            name: self.name@,
            brief: self.brief@,
            return_type: self.return_type@,
            args: args_view(self.args@),
            is_static: self.is_static,
            is_const: self.is_const,
        }
    }
}

impl View for Method {
    type V = MethodV;

    open spec fn view(&self) -> MethodV {
        MethodV {
            name: self.name@,
            brief: self.brief@,
            return_type: self.return_type@,
            args: args_view(self.args@),
            access: self.access,
            is_virtual: self.is_virtual,
            is_pure_virtual: self.is_pure_virtual,
            is_static: self.is_static,
            is_const: self.is_const,
            is_overload: self.is_overload,
        }
    }
}

impl View for Variable {
    type V = VariableV;

    open spec fn view(&self) -> VariableV {
        VariableV {
            name: self.name@,
            brief: self.brief@,
            var_type: self.var_type@,
            is_static: self.is_static,
            is_const: self.is_const,
        }
    }
}

impl View for Member {
    type V = MemberV;

    open spec fn view(&self) -> MemberV {
        MemberV {
            name: self.name@,
            brief: self.brief@,
            var_type: self.var_type@,
            is_static: self.is_static,
            is_const: self.is_const,
            access: self.access,
            offset: self.offset,
        }
    }
}

impl View for Class {
    type V = ClassV;

    open spec fn view(&self) -> ClassV {
        ClassV {
            name: self.name@,
            brief: self.brief@,
            size: self.size,
            alignment: self.alignment,
            constructors: methods_view(self.constructors@),
            destructor: self.destructor@,
            members: members_view(self.members@),
            methods: methods_view(self.methods@),
            is_abstract: self.is_abstract,
            parents: strings_view(self.parents@),
        }
    }
}

impl View for Struct {
    type V = StructV;

    open spec fn view(&self) -> StructV {
        StructV {
            name: self.name@,
            brief: self.brief@,
            size: self.size,
            alignment: self.alignment,
            constructors: methods_view(self.constructors@),
            destructor: self.destructor@,
            members: members_view(self.members@),
            methods: methods_view(self.methods@),
        }
    }
}

impl View for Enumerator {
    type V = EnumeratorV;

    open spec fn view(&self) -> EnumeratorV {
        EnumeratorV { name: self.name@, s_value: self.s_value, u_value: self.u_value }
    }
}

impl View for Enum {
    type V = EnumV;

    open spec fn view(&self) -> EnumV {
        EnumV {
            name: self.name@,
            brief: self.brief@,
            underlying_type: self.underlying_type@,
            enumerators: self.enumerators@.map_values(|e: Enumerator| e@),
        }
    }
}

/// The model of a namespace, through the models of everything it holds.
pub open spec fn namespace_view(n: Namespace) -> NamespaceV
    decreases n, 0int,
{
    NamespaceV {
        name: n.name@,
        namespaces: namespaces_view(n.namespaces@),
        classes: classes_view(n.classes@),
        structs: structs_view(n.structs@),
        functions: functions_view(n.functions@),
        enums: enums_view(n.enums@),
        variables: variables_view(n.variables@),
    }
}

/// The models of a sequence of namespaces, in order.
pub open spec fn namespaces_view(s: Seq<Namespace>) -> Seq<NamespaceV>
    decreases s, 0int,
{
    if s.len() == 0 {
        Seq::empty()
    } else {
        namespaces_view(s.drop_last()).push(namespace_view(s.last()))
    }
}

impl View for Namespace {
    type V = NamespaceV;

    open spec fn view(&self) -> NamespaceV {
        namespace_view(*self)
    }
}

impl Clone for Argument {
    fn clone(&self) -> (r: Self)
        ensures
            r@ == self@,
    {
        Argument { name: self.name.clone(), var_type: self.var_type.clone(), is_const: self.is_const }
    }
}

impl Clone for Method {
    fn clone(&self) -> (r: Self)
        ensures
            r@ == self@,
    {
        let args = self.args.clone();
        assert(args_view(args@) =~= args_view(self.args@));
        Method {
            name: self.name.clone(),
            brief: self.brief.clone(),
            return_type: self.return_type.clone(),
            args,
            access: self.access,
            is_virtual: self.is_virtual,
            is_pure_virtual: self.is_pure_virtual,
            is_static: self.is_static,
            is_const: self.is_const,
            is_overload: self.is_overload,
        }
    }
}

impl Clone for Member {
    fn clone(&self) -> (r: Self)
        ensures
            r@ == self@,
    {
        Member {
            name: self.name.clone(),
            brief: self.brief.clone(),
            var_type: self.var_type.clone(),
            is_static: self.is_static,
            is_const: self.is_const,
            access: self.access,
            offset: self.offset,
        }
    }
}

/// The struct that keeps a class's fields and drops its inheritance information.
pub open spec fn struct_of_class(c: ClassV) -> StructV {
    StructV {
        name: c.name,
        brief: c.brief,
        size: c.size,
        alignment: c.alignment,
        constructors: c.constructors,
        destructor: c.destructor,
        members: c.members,
        methods: c.methods,
    }
}

/// The class with a struct's fields, not abstract and without parents.
pub open spec fn class_of_struct(s: StructV) -> ClassV {
    ClassV {
        name: s.name,
        brief: s.brief,
        size: s.size,
        alignment: s.alignment,
        constructors: s.constructors,
        destructor: s.destructor,
        members: s.members,
        methods: s.methods,
        is_abstract: false,
        parents: Seq::empty(),
    }
}

impl Struct {
    pub fn from_class(class: Class) -> (r: Struct)
        ensures
            r@ == struct_of_class(class@),
    {
        Struct {
            members: class.members,
            methods: class.methods,
            name: class.name,
            size: class.size,
            alignment: class.alignment,
            brief: class.brief,
            constructors: class.constructors,
            destructor: class.destructor,
        }
    }

    pub fn to_class(self) -> (r: Class)
        ensures
            r@ == class_of_struct(self@),
    {
        let r = Class {
            members: self.members,
            methods: self.methods,
            name: self.name,
            size: self.size,
            alignment: self.alignment,
            brief: self.brief,
            constructors: self.constructors,
            destructor: self.destructor,
            is_abstract: false,
            parents: Vec::new(),
        };
        assert(strings_view(r.parents@) =~= Seq::empty());
        r
    }
}

impl Class {
    pub fn from_struct(st: &Struct) -> (r: Class)
        ensures
            r@ == class_of_struct(st@),
    {
        let members = st.members.clone();
        let methods = st.methods.clone();
        let constructors = st.constructors.clone();
        assert(members_view(members@) =~= members_view(st.members@));
        assert(methods_view(methods@) =~= methods_view(st.methods@));
        assert(methods_view(constructors@) =~= methods_view(st.constructors@));
        let r = Class {
            members,
            methods,
            name: st.name.clone(),
            size: st.size,
            alignment: st.alignment,
            brief: st.brief.clone(),
            constructors,
            destructor: st.destructor.clone(),
            is_abstract: false,
            parents: Vec::new(),
        };
        assert(strings_view(r.parents@) =~= Seq::empty());
        r
    }
}

} // verus!

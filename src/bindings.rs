//! The files of the binding stage: one binding source per header, and the
//! module file that declares and calls the init function of every header.

use vstd::prelude::*;
use crate::checker::{results_view, selected, HeaderChecker, Selection};
use crate::ir::Namespace;
use crate::naming::{file_name, file_name_of};
use crate::pybindify::{namespace_text, namespace_to_cpp};
use crate::text::{ends_with, has_suffix, matches_at, occurs_at, seq_join};

verus! {

/// First position, at or after `from`, at which `pat` occurs in `s`; -1 if none.
pub open spec fn find_from(s: Seq<char>, pat: Seq<char>, from: int) -> int
    decreases s.len() + 1 - from,
{
    if from < 0 || from + pat.len() > s.len() {
        -1
    } else if occurs_at(s, pat, from) {
        from
    } else {
        find_from(s, pat, from + 1)
    }
}

/// Where engine headers are included from.
pub open spec fn engine_dir() -> Seq<char> {
    "bomb_engine/engine/"@
}

/// The part of `path` after the engine directory, up to the next occurrence
/// of it; none if the engine directory does not occur.
pub open spec fn relative_header(path: Seq<char>) -> Option<Seq<char>> {
    let i = find_from(path, engine_dir(), 0);
    if i < 0 {
        None
    } else {
        let rest = path.subrange(i + engine_dir().len(), path.len() as int);
        let j = find_from(rest, engine_dir(), 0);
        Some(if j < 0 { rest } else { rest.subrange(0, j) })
    }
}

pub open spec fn include_text(relative: Seq<char>) -> Seq<char> {
    "\n#include \""@ + relative + "\"\n"@
}

pub open spec fn pybind_include() -> Seq<char> {
    "#include <pybind11/pybind11.h>\n\nnamespace py = pybind11;\n\n"@
}

/// The header's file name without its `.h` suffix; none without that suffix.
pub open spec fn binding_stem(path: Seq<char>) -> Option<Seq<char>> {
    let name = file_name_of(path);
    if has_suffix(name, ".h"@) {
        Some(name.subrange(0, name.len() - 2))
    } else {
        None
    }
}

/// The binding source of a header: its include, the binding library's
/// include, and an init function that binds the whole namespace tree in `m`.
pub open spec fn binding_source(relative: Seq<char>, stem: Seq<char>, body: Seq<char>) -> Seq<char> {
    include_text(relative) + pybind_include() + "void init_"@ + stem + "(py::module &m) {\n"@ + body
        + "}\n"@
}

pub open spec fn binding_file_path(stem: Seq<char>) -> Seq<char> {
    "generated/py_"@ + stem + ".cpp"@
}

fn find_text(s: &str, pat: &str) -> (r: Option<usize>)
    ensures
        r is None ==> find_from(s@, pat@, 0) == -1,
        r matches Some(i) ==> find_from(s@, pat@, 0) == i && i + pat@.len() <= s@.len(),
{
    let n = s.unicode_len();
    let k = pat.unicode_len();
    if k > n {
        return None;
    }
    let mut i: usize = 0;
    while i <= n - k
        invariant
            n == s@.len(),
            k == pat@.len(),
            k <= n,
            i <= n - k + 1,
            find_from(s@, pat@, 0) == find_from(s@, pat@, i as int),
        decreases n - k + 1 - i,
    {
        if matches_at(s, pat, i) {
            return Some(i);
        }
        if i == n - k {
            assert(find_from(s@, pat@, i + 1) == -1);
            return None;
        }
        i += 1;
    }
    None
}

/// Builds the binding source of one header's namespace tree.
pub struct BindingsBuilder<'a> {
    namespace: &'a Namespace,
    filename: String,
}

impl<'a> BindingsBuilder<'a> {
    pub closed spec fn namespace(&self) -> Namespace {
        *self.namespace
    }

    pub closed spec fn filename(&self) -> Seq<char> {
        self.filename@
    }

    /// A builder for the header named by the namespace's root; none when its
    /// file name does not end with `.h`.
    pub fn new(namespace: &'a Namespace) -> (r: Option<BindingsBuilder<'a>>)
        ensures
            r is None <==> binding_stem(namespace.name@) is None,
            r matches Some(b) ==> b.namespace() == *namespace && binding_stem(namespace.name@)
                == Some(b.filename()),
    {
        let name = file_name(namespace.name.as_str());
        if !ends_with(name, ".h") {
            return None;
        }
        proof {
            reveal_strlit(".h");
        }
        let n = name.unicode_len();
        let stem = name.substring_char(0, n - 2);
        Some(BindingsBuilder { namespace, filename: stem.to_owned() })
    }

    /// The include directive of the header at `filepath`, relative to the
    /// engine directory; none when the path is not under it.
    pub fn include_directive(&self, filepath: &String) -> (r: Option<String>)
        ensures
            r is None <==> relative_header(filepath@) is None,
            r matches Some(t) ==> t@ == include_text(relative_header(filepath@)->0),
    {
        let path = filepath.as_str();
        let sep = "bomb_engine/engine/";
        let i = match find_text(path, sep) {
            Some(i) => i,
            None => return None,
        };
        proof {
            reveal_strlit("bomb_engine/engine/");
        }
        let n = path.unicode_len();
        let rest = path.substring_char(i + 19, n);
        let rel = match find_text(rest, sep) {
            Some(j) => rest.substring_char(0, j),
            None => rest,
        };
        let mut r = String::new();
        r.append("\n#include \"");
        r.append(rel);
        r.append("\"\n");
        Some(r)
    }

    /// The binding source; none when the header is not under the engine
    /// directory.
    pub fn build(self) -> (r: Option<String>)
        ensures
            r is None <==> relative_header(self.namespace().name@) is None,
            r matches Some(t) ==> t@ == binding_source(
                relative_header(self.namespace().name@)->0,
                self.filename(),
                namespace_text(self.namespace()@, "m"@),
            ),
    {
        let directive = match self.include_directive(&self.namespace.name) {
            Some(t) => t,
            None => return None,
        };
        let mut r = String::new();
        r.append(directive.as_str());
        r.append("#include <pybind11/pybind11.h>\n\nnamespace py = pybind11;\n\n");
        r.append("void init_");
        r.append(self.filename.as_str());
        r.append("(py::module &m) {\n");
        let body = namespace_to_cpp(self.namespace, "m");
        r.append(body.as_str());
        r.append("}\n");
        Some(r)
    }

    /// Where the binding source goes.
    pub fn output_path(&self) -> (r: String)
        ensures
            r@ == binding_file_path(self.filename()),
    {
        let mut r = String::new();
        r.append("generated/py_");
        r.append(self.filename.as_str());
        r.append(".cpp");
        r
    }
}

/// The binding source of a header's namespace tree with the path it goes
/// to; none when the root's name is not a `.h` header under the engine
/// directory.
pub fn generate_header(namespace: &Namespace) -> (r: Option<(String, String)>)
    ensures
        r is None <==> binding_stem(namespace.name@) is None || relative_header(namespace.name@) is None,
        r matches Some(f) ==> f.0@ == binding_file_path(binding_stem(namespace.name@)->0) && f.1@
            == binding_source(
            relative_header(namespace.name@)->0,
            binding_stem(namespace.name@)->0,
            namespace_text(namespace@, "m"@),
        ),
{
    let builder = match BindingsBuilder::new(namespace) {
        Some(b) => b,
        None => return None,
    };
    let path = builder.output_path();
    match builder.build() {
        Some(content) => Some((path, content)),
        None => None,
    }
}

pub open spec fn init_decl(name: Seq<char>) -> Seq<char> {
    "void init_"@ + name + "(py::module &m);\n"@
}

pub open spec fn init_call(name: Seq<char>) -> Seq<char> {
    "\tinit_"@ + name + "(m);\n"@
}

/// The module file: a declaration of each init function, then the module
/// that calls each of them, followed in both places by the hand-written one.
pub open spec fn module_decls_text(names: Seq<Seq<char>>) -> Seq<char> {
    pybind_include() + seq_join(names.map_values(|n: Seq<char>| init_decl(n)), Seq::empty())
        + "void init_pybomb(py::module &m);\n"@
        + "\nPYBIND11_MODULE(bomb_engine, m, py::mod_gil_not_used()) {\n"@ + seq_join(
        names.map_values(|n: Seq<char>| init_call(n)),
        Seq::empty(),
    ) + "\tinit_pybomb(m);\n"@ + "}"@
}

proof fn lemma_join_push(list: Seq<Seq<char>>, x: Seq<char>)
    ensures
        seq_join(list.push(x), Seq::empty()) == seq_join(list, Seq::empty()) + x,
{
    assert(list.push(x).drop_last() =~= list);
    if list.len() == 0 {
        assert(seq_join(list, Seq::empty()) + x =~= x);
    } else {
        assert(seq_join(list, Seq::empty()) + Seq::empty() =~= seq_join(list, Seq::empty()));
    }
}

pub open spec fn names_view(names: Seq<String>) -> Seq<Seq<char>> {
    names.map_values(|n: String| n@)
}

/// The module file declaring and calling the init functions of `names`.
pub fn generate_module_decls(names: &Vec<String>) -> (r: String)
    ensures
        r@ == module_decls_text(names_view(names@)),
{
    let ghost views = names_view(names@);
    let mut r = String::new();
    r.append("#include <pybind11/pybind11.h>\n\nnamespace py = pybind11;\n\n");
    let ghost head = r@;
    let mut i: usize = 0;
    while i < names.len()
        invariant
            i <= names.len(),
            views == names_view(names@),
            r@ == head + seq_join(
                views.take(i as int).map_values(|n: Seq<char>| init_decl(n)),
                Seq::empty(),
            ),
        decreases names.len() - i,
    {
        proof {
            lemma_join_push(views.take(i as int).map_values(|n: Seq<char>| init_decl(n)), init_decl(views[i as int]));
            assert(views.take(i + 1).map_values(|n: Seq<char>| init_decl(n)) =~= views.take(i as int).map_values(|n: Seq<char>| init_decl(n)).push(init_decl(views[i as int])));
        }
        r.append("void init_");
        r.append(names[i].as_str());
        r.append("(py::module &m);\n");
        i += 1;
    }
    assert(views.take(i as int) =~= views);
    r.append("void init_pybomb(py::module &m);\n");
    r.append("\nPYBIND11_MODULE(bomb_engine, m, py::mod_gil_not_used()) {\n");
    let ghost mid = r@;
    let mut i: usize = 0;
    while i < names.len()
        invariant
            i <= names.len(),
            views == names_view(names@),
            r@ == mid + seq_join(
                views.take(i as int).map_values(|n: Seq<char>| init_call(n)),
                Seq::empty(),
            ),
        decreases names.len() - i,
    {
        proof {
            lemma_join_push(views.take(i as int).map_values(|n: Seq<char>| init_call(n)), init_call(views[i as int]));
            assert(views.take(i + 1).map_values(|n: Seq<char>| init_call(n)) =~= views.take(i as int).map_values(|n: Seq<char>| init_call(n)).push(init_call(views[i as int])));
        }
        r.append("\tinit_");
        r.append(names[i].as_str());
        r.append("(m);\n");
        i += 1;
    }
    assert(views.take(i as int) =~= views);
    r.append("\tinit_pybomb(m);\n");
    r.append("}");
    r
}

/// The init function name of a serialized-IR file: its file name without
/// `.json`; none without that suffix.
pub open spec fn init_name_of(path: Seq<char>) -> Option<Seq<char>> {
    let name = file_name_of(path);
    if has_suffix(name, ".json"@) {
        Some(name.subrange(0, name.len() - 5))
    } else {
        None
    }
}

/// The init names of the files of `results`, in order; none if one has no name.
pub open spec fn init_names_of(results: Seq<(Seq<char>, Seq<char>)>) -> Option<Seq<Seq<char>>>
    decreases results.len(),
{
    if results.len() == 0 {
        Some(Seq::empty())
    } else {
        match (init_names_of(results.drop_last()), init_name_of(results.last().0)) {
            (Some(names), Some(n)) => Some(names.push(n)),
            _ => None,
        }
    }
}

/// What becomes of the module file after a session of the binding stage.
#[derive(Debug, PartialEq)]
pub enum ModuleInits {
    /// No file was added, updated or removed: the module file stays.
    Unchanged,
    /// The new content of the module file.
    Regenerate(String),
    /// A file of the session has no `.json` name to take an init name from.
    Unresolvable,
}

fn init_name(path: &str) -> (r: Option<String>)
    ensures
        r is None <==> init_name_of(path@) is None,
        r matches Some(n) ==> init_name_of(path@) == Some(n@),
{
    let name = file_name(path);
    if !ends_with(name, ".json") {
        return None;
    }
    proof {
        reveal_strlit(".json");
    }
    let n = name.unicode_len();
    Some(name.substring_char(0, n - 5).to_owned())
}

/// Where the binding source generated from the serialized-IR file at
/// `ir_path` goes; none when the file name does not end with `.json`.
pub fn binding_path_of_ir(ir_path: &str) -> (r: Option<String>)
    ensures
        r is None <==> init_name_of(ir_path@) is None,
        r matches Some(p) ==> p@ == binding_file_path(init_name_of(ir_path@)->0),
{
    match init_name(ir_path) {
        Some(stem) => {
            let mut r = String::new();
            r.append("generated/py_");
            r.append(stem.as_str());
            r.append(".cpp");
            Some(r)
        },
        None => None,
    }
}

/// The module file of a closed session: regenerated, from the init names of
/// the generated and kept files in that order, whenever a file was added,
/// updated or removed.
pub fn plan_module_inits(checker: &HeaderChecker) -> (r: ModuleInits)
    ensures
        r is Unchanged <==> selected(checker@.ops, Selection::Generate).len() == 0 && selected(
            checker@.ops,
            Selection::Retire,
        ).len() == 0,
        r matches ModuleInits::Regenerate(c) ==> init_names_of(
            selected(checker@.ops, Selection::Generate) + selected(checker@.ops, Selection::Keep),
        ) matches Some(names) && c@ == module_decls_text(names),
        r is Unresolvable ==> init_names_of(
            selected(checker@.ops, Selection::Generate) + selected(checker@.ops, Selection::Keep),
        ) is None,
{
    let mut all = checker.headers_to_generate();
    let deleted = checker.headers_to_delete();
    if all.len() == 0 && deleted.len() == 0 {
        return ModuleInits::Unchanged;
    }
    let ghost g = results_view(all@);
    let mut kept = checker.headers_to_skip();
    let ghost k = results_view(kept@);
    all.append(&mut kept);
    assert(results_view(all@) =~= g + k);
    let ghost rs = results_view(all@);
    let mut names: Vec<String> = Vec::new();
    let mut i: usize = 0;
    while i < all.len()
        invariant
            i <= all.len(),
            rs == results_view(all@),
            rs == g + k,
            g == selected(checker@.ops, Selection::Generate),
            k == selected(checker@.ops, Selection::Keep),
            g.len() > 0 || selected(checker@.ops, Selection::Retire).len() > 0,
            init_names_of(rs.take(i as int)) == Some(names_view(names@)),
        decreases all.len() - i,
    {
        assert(rs.take(i + 1).drop_last() =~= rs.take(i as int));
        match init_name(all[i].header.as_str()) {
            Some(n) => {
                names.push(n);
                assert(names_view(names@) =~= init_names_of(rs.take(i + 1))->0);
            },
            None => {
                assert(init_names_of(rs.take(i + 1)) is None);
                proof {
                    lemma_init_names_prefix(rs, i as int + 1);
                }
                return ModuleInits::Unresolvable;
            },
        }
        i += 1;
    }
    assert(rs.take(i as int) =~= rs);
    ModuleInits::Regenerate(generate_module_decls(&names))
}

/// A prefix without init names leaves the whole without them.
proof fn lemma_init_names_prefix(rs: Seq<(Seq<char>, Seq<char>)>, i: int)
    requires
        0 <= i <= rs.len(),
        init_names_of(rs.take(i)) is None,
    ensures
        init_names_of(rs) is None,
    decreases rs.len() - i,
{
    if i < rs.len() {
        assert(rs.take(i + 1).drop_last() =~= rs.take(i));
        lemma_init_names_prefix(rs, i + 1);
    } else {
        assert(rs.take(i) =~= rs);
    }
}

} // verus!

//! Names of the artifacts derived from a header.
//!
//! The artifact of a header takes the header's file name, strips exactly one
//! supported suffix (`.h`, then `.hpp`, then `.ixx`), appends the artifact's
//! own suffix and stands under `<artifact root>/<module>/`.

use vstd::prelude::*;
use crate::text::{ends_with, has_suffix};

verus! {

/// Position of the last `/` in `p`, or -1.
pub open spec fn last_slash(p: Seq<char>) -> int
    decreases p.len(),
{
    if p.len() == 0 {
        -1
    } else if p.last() == '/' {
        p.len() - 1
    } else {
        last_slash(p.drop_last())
    }
}

/// The part of a path after its last `/`.
pub open spec fn file_name_of(p: Seq<char>) -> Seq<char> {
    p.subrange(last_slash(p) + 1, p.len() as int)
}

/// `name` without its supported suffix, the first of `.h`, `.hpp`, `.ixx`
/// that it ends with; none if it ends with none of them.
pub open spec fn stem_of(name: Seq<char>) -> Option<Seq<char>> {
    if has_suffix(name, ".h"@) {
        Some(name.subrange(0, name.len() - 2))
    } else if has_suffix(name, ".hpp"@) {
        Some(name.subrange(0, name.len() - 4))
    } else if has_suffix(name, ".ixx"@) {
        Some(name.subrange(0, name.len() - 4))
    } else {
        None
    }
}

/// `<dir>/<module>/<stem>.<extension>` for the header at `path`.
pub open spec fn artifact_path(
    path: Seq<char>,
    module: Seq<char>,
    dir: Seq<char>,
    extension: Seq<char>,
) -> Option<Seq<char>> {
    match stem_of(file_name_of(path)) {
        Some(stem) => Some(dir + "/"@ + module + "/"@ + stem + "."@ + extension),
        None => None,
    }
}

/// The generated header of the header at `path` in `module`.
pub open spec fn header_artifact(path: Seq<char>, module: Seq<char>) -> Option<Seq<char>> {
    artifact_path(path, module, "generated/headers"@, "generated.h"@)
}

/// The serialized IR of the header at `path` in `module`.
pub open spec fn json_artifact(path: Seq<char>, module: Seq<char>) -> Option<Seq<char>> {
    artifact_path(path, module, "generated/json"@, "json"@)
}

proof fn lemma_last_slash_unique(p: Seq<char>, i: int)
    requires
        -1 <= i < p.len(),
        i >= 0 ==> p[i] == '/',
        forall|k: int| i < k < p.len() ==> p[k] != '/',
    ensures
        last_slash(p) == i,
    decreases p.len(),
{
    if p.len() > 0 && i < p.len() - 1 {
        lemma_last_slash_unique(p.drop_last(), i);
    }
}

/// The file name of a path: what follows its last `/`.
pub fn file_name(path: &str) -> (r: &str)
    ensures
        r@ == file_name_of(path@),
{
    let n = path.unicode_len();
    let mut i: usize = n;
    while i > 0
        invariant
            i <= n,
            n == path@.len(),
            forall|k: int| i <= k < n ==> path@[k] != '/',
        decreases i,
    {
        if path.get_char(i - 1) == '/' {
            proof {
                lemma_last_slash_unique(path@, i - 1);
            }
            return path.substring_char(i, n);
        }
        i -= 1;
    }
    proof {
        lemma_last_slash_unique(path@, -1);
    }
    path.substring_char(0, n)
}

fn push_artifact(dir: &str, module: &str, stem: &str, extension: &str) -> (r: String)
    ensures
        r@ == dir@ + "/"@ + module@ + "/"@ + stem@ + "."@ + extension@,
{
    let mut r = String::new();
    r.append(dir);
    r.append("/");
    r.append(module);
    r.append("/");
    r.append(stem);
    r.append(".");
    r.append(extension);
    r
}

fn generated_path(header: &str, module: &str, dir: &str, extension: &str) -> (r: Option<String>)
    ensures
        r matches Some(p) ==> artifact_path(header@, module@, dir@, extension@) == Some(p@),
        r is None ==> artifact_path(header@, module@, dir@, extension@) is None,
{
    let name = file_name(header);
    let n = name.unicode_len();
    let cut: usize = if ends_with(name, ".h") {
        2
    } else if ends_with(name, ".hpp") {
        4
    } else if ends_with(name, ".ixx") {
        4
    } else {
        return None;
    };
    proof {
        reveal_strlit(".h");
        reveal_strlit(".hpp");
        reveal_strlit(".ixx");
    }
    let stem = name.substring_char(0, n - cut);
    Some(push_artifact(dir, module, stem, extension))
}

/// Computes where the derived artifacts of parsed headers go.
pub struct Generator {
    parsed_headers: Vec<(crate::ir::Namespace, String)>,
}

impl Generator {
    /// A generator for parsed headers, each with the module it belongs to.
    pub fn new(parsed_headers: Vec<(crate::ir::Namespace, String)>) -> (r: Generator)
        ensures
            r.parsed_headers() == parsed_headers@,
    {
        Generator { parsed_headers }
    }

    pub closed spec fn parsed_headers(&self) -> Seq<(crate::ir::Namespace, String)> {
        self.parsed_headers@
    }

    /// The parsed headers with their modules.
    pub fn headers(&self) -> (r: &Vec<(crate::ir::Namespace, String)>)
        ensures
            r@ == self.parsed_headers(),
    {
        &self.parsed_headers
    }

    /// The parsed headers with their modules, handed back.
    pub fn into_headers(self) -> (r: Vec<(crate::ir::Namespace, String)>)
        ensures
            r@ == self.parsed_headers(),
    {
        self.parsed_headers
    }

    /// The generated header of `header` in `module`; none when the file name
    /// has no supported suffix.
    pub fn generated_header_filepath(header: &str, module: &str) -> (r: Option<String>)
        ensures
            r matches Some(p) ==> header_artifact(header@, module@) == Some(p@),
            r is None ==> header_artifact(header@, module@) is None,
    {
        generated_path(header, module, "generated/headers", "generated.h")
    }

    /// The serialized IR of `header` in `module`; none when the file name has
    /// no supported suffix.
    pub fn generated_json_filepath(header: &str, module: &str) -> (r: Option<String>)
        ensures
            r matches Some(p) ==> json_artifact(header@, module@) == Some(p@),
            r is None ==> json_artifact(header@, module@) is None,
    {
        generated_path(header, module, "generated/json", "json")
    }
}

proof fn lemma_last_slash_append(x: Seq<char>, f: Seq<char>)
    requires
        forall|i: int| 0 <= i < f.len() ==> f[i] != '/',
    ensures
        last_slash(x + f) == last_slash(x),
    decreases f.len(),
{
    if f.len() == 0 {
        assert(x + f =~= x);
    } else {
        assert((x + f).drop_last() =~= x + f.drop_last());
        lemma_last_slash_append(x, f.drop_last());
    }
}

/// Naming determinism: the artifacts of a header depend on its file name
/// alone, whatever the directories above it.
pub proof fn lemma_naming_ignores_directories(dir: Seq<char>, file: Seq<char>, module: Seq<char>)
    requires
        forall|i: int| 0 <= i < file.len() ==> file[i] != '/',
    ensures
        header_artifact(dir + "/"@ + file, module) == header_artifact(file, module),
        json_artifact(dir + "/"@ + file, module) == json_artifact(file, module),
{
    reveal_strlit("/");
    let x = dir + "/"@;
    lemma_last_slash_append(x, file);
    assert(last_slash(x) == x.len() - 1);
    assert(file_name_of(x + file) =~= file);
    lemma_last_slash_append(Seq::empty(), file);
    assert(Seq::<char>::empty() + file =~= file);
    assert(file_name_of(file) =~= file);
}

} // verus!

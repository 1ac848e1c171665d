//! Locating the artifacts of retired headers.
//!
//! A retired header's module is not known: the module directory that holds
//! its artifacts is found by probing each candidate module in turn.

use vstd::prelude::*;
use crate::ir::strings_view;
use crate::naming::{header_artifact, json_artifact, Generator};
use crate::text::same_text;

verus! {

/// `path` is one of `existing`.
pub open spec fn listed(existing: Seq<Seq<char>>, path: Option<Seq<char>>) -> bool {
    match path {
        Some(p) => existing.contains(p),
        None => false,
    }
}

/// An artifact of `header` in module `dir` is among the existing files.
pub open spec fn has_artifact(header: Seq<char>, dir: Seq<char>, existing: Seq<Seq<char>>) -> bool {
    listed(existing, header_artifact(header, dir)) || listed(existing, json_artifact(header, dir))
}

fn contains_text(list: &Vec<String>, s: &str) -> (r: bool)
    ensures
        r == strings_view(list@).contains(s@),
{
    let mut i: usize = 0;
    while i < list.len()
        invariant
            i <= list.len(),
            forall|k: int| 0 <= k < i ==> list@[k]@ != s@,
        decreases list.len() - i,
    {
        if same_text(list[i].as_str(), s) {
            assert(strings_view(list@)[i as int] == s@);
            return true;
        }
        i += 1;
    }
    assert forall|k: int| 0 <= k < list.len() implies strings_view(list@)[k] != s@ by {}
    false
}

fn is_listed(existing: &Vec<String>, path: Option<String>) -> (r: bool)
    ensures
        r == listed(strings_view(existing@), match path {
            Some(p) => Some(p@),
            None => None,
        }),
{
    match path {
        Some(p) => contains_text(existing, p.as_str()),
        None => false,
    }
}

/// The first of the module directories `dirs` in which an artifact of
/// `header` exists, given the paths of the existing artifacts.
pub fn find_generated(header: &str, dirs: &Vec<String>, existing: &Vec<String>) -> (r: Option<String>)
    ensures
        r is None <==> forall|i: int|
            0 <= i < dirs.len() ==> !has_artifact(header@, #[trigger] dirs@[i]@, strings_view(existing@)),
        r matches Some(d) ==> exists|i: int|
            0 <= i < dirs.len() && dirs@[i]@ == d@ && has_artifact(
                header@,
                dirs@[i]@,
                strings_view(existing@),
            ) && forall|j: int|
                0 <= j < i ==> !has_artifact(header@, #[trigger] dirs@[j]@, strings_view(existing@)),
{
    let ghost ex = strings_view(existing@);
    let mut i: usize = 0;
    while i < dirs.len()
        invariant
            i <= dirs.len(),
            ex == strings_view(existing@),
            forall|j: int| 0 <= j < i ==> !has_artifact(header@, #[trigger] dirs@[j]@, ex),
        decreases dirs.len() - i,
    {
        let dir = dirs[i].as_str();
        let hpath = Generator::generated_header_filepath(header, dir);
        let jpath = Generator::generated_json_filepath(header, dir);
        if is_listed(existing, hpath) || is_listed(existing, jpath) {
            return Some(dirs[i].clone());
        }
        i += 1;
    }
    None
}

} // verus!

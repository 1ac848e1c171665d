//! Modules of a run: the input headers grouped by module, as given on the
//! command line.
//!
//! A token `--module=<name>` opens a new module; the tokens that follow, up to
//! the next marker, are that module's header paths.

use vstd::prelude::*;
use crate::ir::strings_view;
use crate::text::{has_prefix, starts_with};

verus! {

/// A module and its input headers.
#[derive(Default, Debug)]
pub struct Module {
    pub module_name: String,
    pub module_headers: Vec<String>,
}

/// Model of a [`Module`].
pub ghost struct ModuleV {
    pub name: Seq<char>,
    pub headers: Seq<Seq<char>>,
}

impl View for Module {
    type V = ModuleV;

    open spec fn view(&self) -> ModuleV {
        ModuleV { name: self.module_name@, headers: strings_view(self.module_headers@) }
    }
}

impl Module {
    /// The module has no headers.
    pub fn is_empty(&self) -> (r: bool)
        ensures
            r == (self@.headers.len() == 0),
    {
        self.module_headers.len() == 0
    }
}

/// Why a command line does not give modules.
#[derive(Debug, Clone, Copy, PartialEq, Eq, Structural)]
pub enum ArgsError {
    /// No argument at all.
    NoArguments,
    /// A module marker without a name.
    MissingModuleName,
    /// A module marker whose name holds `=`.
    MalformedModule,
    /// A module marker followed by no header.
    EmptyModule,
}

impl ArgsError {
    /// A description for the user.
    pub fn message(&self) -> (r: &'static str) {
        match self {
            ArgsError::NoArguments => "No headers were passed!",
            ArgsError::MissingModuleName => "A module marker has no module name.",
            ArgsError::MalformedModule => "Error in module passing format.",
            ArgsError::EmptyModule => "A module has no headers.",
        }
    }
}

/// State of the grouping after some tokens.
pub ghost struct ArgsState {
    pub done: Seq<ModuleV>,
    pub current: ModuleV,
    /// A marker has opened `current`.
    pub opened: bool,
    pub failed: Option<ArgsError>,
}

pub open spec fn marker() -> Seq<char> {
    "--module="@
}

pub open spec fn args_start() -> ArgsState {
    ArgsState {
        done: Seq::empty(),
        current: ModuleV { name: Seq::empty(), headers: Seq::empty() },
        opened: false,
        failed: None,
    }
}

/// The modules so far, with `current` kept when it has headers.
pub open spec fn flushed(s: ArgsState) -> Seq<ModuleV> {
    if s.current.headers.len() > 0 {
        s.done.push(s.current)
    } else {
        s.done
    }
}

/// One token: a marker closes the current module and opens a named one,
/// any other token is a header of the current module.
pub open spec fn args_step(s: ArgsState, tok: Seq<char>) -> ArgsState {
    if s.failed is Some {
        s
    } else if has_prefix(tok, marker()) {
        let name = tok.subrange(marker().len() as int, tok.len() as int);
        if s.opened && s.current.headers.len() == 0 {
            ArgsState { failed: Some(ArgsError::EmptyModule), ..s }
        } else if name.len() == 0 {
            ArgsState { failed: Some(ArgsError::MissingModuleName), ..s }
        } else if name.contains('=') {
            ArgsState { failed: Some(ArgsError::MalformedModule), ..s }
        } else {
            ArgsState {
                done: flushed(s),
                current: ModuleV { name, headers: Seq::empty() },
                opened: true,
                failed: None,
            }
        }
    } else {
        ArgsState { current: ModuleV { headers: s.current.headers.push(tok), ..s.current }, ..s }
    }
}

pub open spec fn args_fold(toks: Seq<Seq<char>>) -> ArgsState
    decreases toks.len(),
{
    if toks.len() == 0 {
        args_start()
    } else {
        args_step(args_fold(toks.drop_last()), toks.last())
    }
}

/// The modules that the tokens give, or why they give none.
pub open spec fn modules_of(toks: Seq<Seq<char>>) -> Result<Seq<ModuleV>, ArgsError> {
    if toks.len() == 0 {
        Err(ArgsError::NoArguments)
    } else {
        let s = args_fold(toks);
        match s.failed {
            Some(e) => Err(e),
            None => if s.opened && s.current.headers.len() == 0 {
                Err(ArgsError::EmptyModule)
            } else {
                Ok(flushed(s))
            },
        }
    }
}

pub open spec fn modules_view(m: Seq<Module>) -> Seq<ModuleV> {
    m.map_values(|x: Module| x@)
}

proof fn lemma_failed_stays(toks: Seq<Seq<char>>, i: int)
    requires
        0 <= i <= toks.len(),
        args_fold(toks.take(i)).failed is Some,
    ensures
        args_fold(toks).failed == args_fold(toks.take(i)).failed,
    decreases toks.len() - i,
{
    if i < toks.len() {
        assert(toks.take(i + 1).drop_last() =~= toks.take(i));
        lemma_failed_stays(toks, i + 1);
    } else {
        assert(toks.take(i) =~= toks);
    }
}

fn has_equals(s: &str) -> (r: bool)
    ensures
        r == s@.contains('='),
{
    let n = s.unicode_len();
    let mut i: usize = 0;
    while i < n
        invariant
            n == s@.len(),
            i <= n,
            forall|k: int| 0 <= k < i ==> s@[k] != '=',
        decreases n - i,
    {
        if s.get_char(i) == '=' {
            assert(s@[i as int] == '=');
            return true;
        }
        i += 1;
    }
    false
}

/// Groups the header paths of a command line by module.
pub fn parse_arguments(args: &Vec<String>) -> (r: Result<Vec<Module>, ArgsError>)
    ensures
        match r {
            Ok(m) => modules_of(strings_view(args@)) == Ok::<Seq<ModuleV>, ArgsError>(modules_view(m@)),
            Err(e) => modules_of(strings_view(args@)) == Err::<Seq<ModuleV>, ArgsError>(e),
        },
{
    if args.len() == 0 {
        return Err(ArgsError::NoArguments);
    }
    let ghost toks = strings_view(args@);
    let mut modules: Vec<Module> = Vec::new();
    let mut current = Module { module_name: String::new(), module_headers: Vec::new() };
    let mut opened = false;
    assert(current@.headers =~= Seq::empty());
    assert(modules_view(modules@) =~= Seq::empty());
    let mut i: usize = 0;
    while i < args.len()
        invariant
            i <= args.len(),
            toks == strings_view(args@),
            args_fold(toks.take(i as int)) == (ArgsState {
                done: modules_view(modules@),
                current: current@,
                opened,
                failed: None,
            }),
        decreases args.len() - i,
    {
        let tok = args[i].as_str();
        assert(toks.take(i + 1).drop_last() =~= toks.take(i as int));
        assert(toks.take(i + 1).last() == tok@);
        if starts_with(tok, "--module=") {
            proof {
                reveal_strlit("--module=");
            }
            let n = tok.unicode_len();
            let name = tok.substring_char(9, n);
            if opened && current.module_headers.len() == 0 {
                proof {
                    lemma_failed_stays(toks, i + 1);
                }
                return Err(ArgsError::EmptyModule);
            }
            if name.unicode_len() == 0 {
                proof {
                    lemma_failed_stays(toks, i + 1);
                }
                return Err(ArgsError::MissingModuleName);
            }
            if has_equals(name) {
                proof {
                    lemma_failed_stays(toks, i + 1);
                }
                return Err(ArgsError::MalformedModule);
            }
            let ghost before = modules@;
            let next = Module { module_name: name.to_owned(), module_headers: Vec::new() };
            if current.module_headers.len() > 0 {
                modules.push(current);
                assert(modules_view(modules@) =~= modules_view(before).push(current@));
            }
            current = next;
            assert(current@.headers =~= Seq::empty());
            opened = true;
        } else {
            let ghost before = current.module_headers@;
            current.module_headers.push(args[i].clone());
            assert(strings_view(current.module_headers@) =~= strings_view(before).push(tok@));
        }
        i += 1;
    }
    assert(toks.take(i as int) =~= toks);
    if opened && current.module_headers.len() == 0 {
        return Err(ArgsError::EmptyModule);
    }
    let ghost before = modules@;
    if current.module_headers.len() > 0 {
        modules.push(current);
        assert(modules_view(modules@) =~= modules_view(before).push(current@));
    }
    Ok(modules)
}

} // verus!

//! Paths that may name variables of the project.
//!
//! A variable is written `${name}`. Everything else in a path is taken as it
//! stands, also a `$` that no `{` follows and a `${` that no `}` closes.

use vstd::prelude::*;
use crate::error::{outcome, ActionError, ErrorView};
use crate::name_map::NameMap;
use crate::path::{is_within, join, joined, within};
use crate::snapshot::{observe, observed, FactsView, Snapshot};
use crate::text::{chars_of, slice_of};

verus! {

/// The position of the first `}` of `t` at or behind `from`, or the length
/// of `t` where none follows.
pub open spec fn closing(t: Seq<char>, from: int) -> int
    decreases t.len() - from,
{
    if from < 0 || from >= t.len() {
        t.len() as int
    } else if t[from] == '}' {
        from
    } else {
        closing(t, from + 1)
    }
}

/// Whether a closed `${name}` begins at position `i` of `t`.
pub open spec fn opens_at(t: Seq<char>, i: int) -> bool {
    &&& 0 <= i
    &&& i + 1 < t.len()
    &&& t[i] == '$'
    &&& t[i + 1] == '{'
    &&& closing(t, i + 2) < t.len()
}

/// `closing` stays between its starting point and the end, and names a `}`
/// before which none stands.
pub proof fn lemma_closing(t: Seq<char>, from: int)
    requires
        0 <= from <= t.len(),
    ensures
        from <= closing(t, from) <= t.len(),
        closing(t, from) < t.len() ==> t[closing(t, from)] == '}',
        forall|j: int| from <= j < closing(t, from) ==> t[j] != '}',
    decreases t.len() - from,
{
    if from < t.len() && t[from] != '}' {
        lemma_closing(t, from + 1);
    }
}

/// What the text of `t` from position `i` on becomes when every variable is
/// replaced by its value: `Ok` with the text, or `Err` with the name of the
/// first variable, reading from the left, that `variables` does not define.
pub open spec fn expand_from(t: Seq<char>, variables: Map<Seq<char>, Seq<char>>, i: int) -> Result<
    Seq<char>,
    Seq<char>,
>
    decreases t.len() - i,
{
    if i < 0 || i >= t.len() {
        Ok(Seq::<char>::empty())
    } else if opens_at(t, i) {
        let end = closing(t, i + 2);
        let name = t.subrange(i + 2, end);
        proof {
            lemma_closing(t, i + 2);
        }
        if variables.contains_key(name) {
            match expand_from(t, variables, end + 1) {
                Ok(rest) => Ok(variables[name] + rest),
                Err(missing) => Err(missing),
            }
        } else {
            Err(name)
        }
    } else {
        match expand_from(t, variables, i + 1) {
            Ok(rest) => Ok(seq![t[i]] + rest),
            Err(missing) => Err(missing),
        }
    }
}

/// The path that the template `t` stands for under `variables`.
pub open spec fn expanded(t: Seq<char>, variables: Map<Seq<char>, Seq<char>>) -> Result<
    Seq<char>,
    Seq<char>,
> {
    expand_from(t, variables, 0)
}

/// `expanded`, with the missing variable reported as an error.
pub open spec fn resolved(t: Seq<char>, variables: Map<Seq<char>, Seq<char>>) -> Result<
    Seq<char>,
    ErrorView,
> {
    match expanded(t, variables) {
        Ok(path) => Ok(path),
        Err(name) => Err(ErrorView::UnresolvedVariable { name }),
    }
}

/// The real file behind the template `t`: the path that `t` resolves to,
/// with every symbolic link and relative part resolved, as `fs` shows it.
/// `NotFound` where nothing exists there.
pub open spec fn canonical_of(
    t: Seq<char>,
    variables: Map<Seq<char>, Seq<char>>,
    fs: Map<Seq<char>, FactsView>,
) -> Result<Seq<char>, ErrorView> {
    match resolved(t, variables) {
        Err(e) => Err(e),
        Ok(path) => match observed(fs, path) {
            Err(e) => Err(e),
            Ok(facts) => match facts.canonical {
                Some(canonical) => Ok(canonical),
                None => Err(ErrorView::NotFound { path: t }),
            },
        },
    }
}

/// A path as it is written in the project's document: it may name
/// variables, which are looked up only when the path is resolved. Two paths
/// are equal where they are written alike.
#[derive(Debug, PartialEq, Eq)]
pub struct VariablePath {
    pub raw: String,
}

impl View for VariablePath {
    type V = Seq<char>;

    open spec fn view(&self) -> Seq<char> {
        self.raw@
    }
}

impl Clone for VariablePath {
    fn clone(&self) -> (copy: Self)
        ensures
            copy@ == self@,
    {
        VariablePath { raw: self.raw.clone() }
    }
}

impl From<String> for VariablePath {
    /// The path written as `raw`.
    fn from(raw: String) -> (path: VariablePath) {
        VariablePath { raw }
    }
}

impl vstd::std_specs::convert::FromSpecImpl<String> for VariablePath {
    open spec fn obeys_from_spec() -> bool {
        true
    }

    open spec fn from_spec(raw: String) -> VariablePath {
        VariablePath { raw }
    }
}

/// The position of the first `}` of `chars` at or behind `from`.
fn find_closing(chars: &Vec<char>, from: usize) -> (end: usize)
    requires
        from <= chars.len(),
    ensures
        end == closing(chars@, from as int),
        from <= end <= chars.len(),
{
    let mut j: usize = from;
    while j < chars.len() && chars[j] != '}'
        invariant
            from <= j <= chars.len(),
            closing(chars@, from as int) == closing(chars@, j as int),
        decreases chars.len() - j,
    {
        j += 1;
    }
    j
}

impl VariablePath {
    /// The path written as `raw`. Nothing is checked here: a variable that
    /// is not defined shows when the path is resolved.
    pub fn new(raw: String) -> (path: VariablePath)
        ensures
            path@ == raw@,
    {
        VariablePath { raw }
    }

    /// The path as it is written.
    pub fn as_str(&self) -> (raw: &str)
        ensures
            raw@ == self@,
    {
        self.raw.as_str()
    }

    /// Whether two paths are written alike. Paths that are written
    /// differently may still resolve to one file.
    pub fn same_template(&self, other: &VariablePath) -> (same: bool)
        ensures
            same == (self@ == other@),
    {
        self.raw == other.raw
    }

    /// The path with every `${name}` replaced by the value of `name`.
    /// Fails with `UnresolvedVariable` for the first name, from the left,
    /// that `variables` does not define.
    pub fn resolve(&self, variables: Option<&NameMap<String>>) -> (out: Result<String, ActionError>)
        ensures
            outcome(out) == resolved(self@, bindings(variables)),
    {
        let raw = self.raw.as_str();
        let chars = chars_of(raw);
        let n = chars.len();
        let ghost t = chars@;
        let ghost vars = bindings(variables);
        let mut out = String::new();
        let mut i: usize = 0;
        while i < n
            invariant
                i <= n,
                n == t.len(),
                t == chars@,
                t == raw@,
                t == self@,
                vars == bindings(variables),
                expanded(t, vars) == prefixed(out@, expand_from(t, vars, i as int)),
            decreases n - i,
        {
            let mut placeholder: Option<usize> = None;
            if chars[i] == '$' && i + 1 < n && chars[i + 1] == '{' {
                let end = find_closing(&chars, i + 2);
                if end < n {
                    placeholder = Some(end);
                }
            }
            match placeholder {
                Some(end) => {
                    let name = slice_of(raw, i + 2, end);
                    let value: Option<&String> = match variables {
                        Some(table) => table.get(name.as_str()),
                        None => None,
                    };
                    match value {
                        Some(v) => {
                            let ghost before = out@;
                            out.append(v.as_str());
                            proof {
                                lemma_prefixed_append(
                                    before,
                                    vars[name@],
                                    expand_from(t, vars, end + 1),
                                );
                            }
                            i = end + 1;
                        },
                        None => {
                            assert(expand_from(t, vars, i as int) == Err::<Seq<char>, Seq<char>>(
                                name@,
                            ));
                            return Err(ActionError::UnresolvedVariable { name });
                        },
                    }
                },
                None => {
                    let ghost before = out@;
                    let piece = slice_of(raw, i, i + 1);
                    out.append(piece.as_str());
                    proof {
                        assert(piece@ =~= seq![t[i as int]]);
                        lemma_prefixed_append(before, piece@, expand_from(t, vars, i + 1));
                    }
                    i += 1;
                },
            }
        }
        Ok(out)
    }

    /// The real file behind the path: the path is resolved, and `fs` is
    /// asked what stands there. Two paths name the same file where this
    /// gives the same for both, however they are written.
    pub fn canonicalize_resolved(&self, variables: Option<&NameMap<String>>, fs: &Snapshot) -> (out:
        Result<String, ActionError>)
        ensures
            outcome(out) == canonical_of(self@, bindings(variables), fs@),
    {
        let path = self.resolve(variables)?;
        let facts = observe(fs, path.as_str())?;
        match &facts.canonical {
            Some(canonical) => Ok(canonical.clone()),
            None => Err(ActionError::NotFound { path: self.raw.clone() }),
        }
    }

    /// Whether `other`, taken from the directory `root` where it has no root
    /// of its own, is this path's resolved location or lies under it.
    /// Fails where this path names a variable that is not defined.
    pub fn contains_path(
        &self,
        variables: Option<&NameMap<String>>,
        root: &str,
        other: &str,
    ) -> (out: Result<bool, ActionError>)
        ensures
            outcome(out) == holds(self@, bindings(variables), root@, other@),
    {
        match self.resolve(variables) {
            Ok(here) => {
                let there = join(root, other);
                Ok(is_within(here.as_str(), there.as_str()))
            },
            Err(e) => Err(e),
        }
    }
}

/// Whether `other`, taken from `root`, is the resolved location of the
/// template `t` or lies under it.
pub open spec fn holds(
    t: Seq<char>,
    variables: Map<Seq<char>, Seq<char>>,
    root: Seq<char>,
    other: Seq<char>,
) -> Result<bool, ErrorView> {
    match resolved(t, variables) {
        Ok(here) => Ok(within(here, joined(root, other))),
        Err(e) => Err(e),
    }
}

/// The variables of a project as a map: none is defined where the project
/// keeps no table of them.
pub open spec fn bindings(variables: Option<&NameMap<String>>) -> Map<Seq<char>, Seq<char>> {
    match variables {
        Some(table) => table@,
        None => Map::empty(),
    }
}

/// `head` put in front of a text that was expanded; a missing variable
/// stays missing.
pub open spec fn prefixed(head: Seq<char>, rest: Result<Seq<char>, Seq<char>>) -> Result<
    Seq<char>,
    Seq<char>,
> {
    match rest {
        Ok(text) => Ok(head + text),
        Err(missing) => Err(missing),
    }
}

proof fn lemma_prefixed_append(head: Seq<char>, piece: Seq<char>, rest: Result<Seq<char>, Seq<char>>)
    ensures
        prefixed(head, prefixed(piece, rest)) == prefixed(head + piece, rest),
{
    match rest {
        Ok(text) => {
            assert(head + (piece + text) =~= (head + piece) + text);
        },
        Err(_) => {},
    }
}

} // verus!

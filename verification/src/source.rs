//! Where the managed copy of a file lies: at one place for every system, or
//! at a default place with other places for some systems.

use vstd::prelude::*;
use crate::name_map::NameMap;
use crate::path::{is_within, join, joined, within};
use crate::text::{decimal, decimal_text, glue, same_text, view_of};

verus! {

/// A `SourceSelector` as a value of mathematics.
pub enum SourceView {
    /// One place, whatever the system.
    Single { path: Seq<char> },
    /// A default place, and for some systems a place of their own.
    PerSystem { default: Seq<char>, overrides: Map<Seq<char>, Seq<char>> },
}

/// No system is given the place that is the default already.
pub open spec fn diverges(s: SourceView) -> bool {
    match s {
        SourceView::Single { .. } => true,
        SourceView::PerSystem { default, overrides } => forall|system: Seq<char>|
            overrides.contains_key(system) ==> overrides[system] != default,
    }
}

/// The place that serves `system`: its own where it has one, else the
/// default.
pub open spec fn source_for(s: SourceView, system: Option<Seq<char>>) -> Seq<char> {
    match s {
        SourceView::Single { path } => path,
        SourceView::PerSystem { default, overrides } => match system {
            Some(name) => if overrides.contains_key(name) {
                overrides[name]
            } else {
                default
            },
            None => default,
        },
    }
}

/// `s` after `system` was given the place `path`. A single place becomes the
/// default of a selector with overrides. A place that is the default
/// already is no override: the system has no entry then, and is served by
/// the default.
pub open spec fn with_override(s: SourceView, system: Seq<char>, path: Seq<char>) -> SourceView {
    match s {
        SourceView::Single { path: only } => if path == only {
            SourceView::PerSystem { default: only, overrides: Map::empty() }
        } else {
            SourceView::PerSystem { default: only, overrides: Map::empty().insert(system, path) }
        },
        SourceView::PerSystem { default, overrides } => if path == default {
            SourceView::PerSystem { default, overrides: overrides.remove(system) }
        } else {
            SourceView::PerSystem { default, overrides: overrides.insert(system, path) }
        },
    }
}

/// Whether `other` is one of the places of `s` or lies under one, all paths
/// taken from the directory `root`.
pub open spec fn source_holds(s: SourceView, root: Seq<char>, other: Seq<char>) -> bool {
    match s {
        SourceView::Single { path } => within(joined(root, path), joined(root, other)),
        SourceView::PerSystem { default, overrides } => within(
            joined(root, default),
            joined(root, other),
        ) || exists|system: Seq<char>|
            overrides.contains_key(system) && within(
                joined(root, #[trigger] overrides[system]),
                joined(root, other),
            ),
    }
}

/// The number of systems that have a place of their own.
pub open spec fn override_count(s: SourceView) -> nat {
    match s {
        SourceView::Single { .. } => 0,
        SourceView::PerSystem { overrides, .. } => overrides.dom().len(),
    }
}

/// The summary that `describe` gives of a selector.
pub open spec fn summary_of(s: SourceView) -> Seq<char> {
    match s {
        SourceView::Single { path } => "single source "@ + path,
        SourceView::PerSystem { default, .. } => decimal(override_count(s))
            + " system overrides + default "@ + default,
    }
}

/// The two forms of a selector.
#[derive(Debug)]
enum Form {
    Single { path: String },
    PerSystem { default: String, overrides: NameMap<String> },
}

/// Where the managed copy of a file lies: at one place, or at a default
/// place with other places for some systems. No system is given the place
/// that is the default already.
#[derive(Debug)]
pub struct SourceSelector {
    form: Form,
}

impl View for SourceSelector {
    type V = SourceView;

    closed spec fn view(&self) -> SourceView {
        match self.form {
            Form::Single { path } => SourceView::Single { path: path@ },
            Form::PerSystem { default, overrides } => SourceView::PerSystem {
                default: default@,
                overrides: overrides@,
            },
        }
    }
}

impl SourceSelector {
    #[verifier::type_invariant]
    spec fn overrides_diverge(self) -> bool {
        diverges(self@)
    }

    /// A selector with the one place `path`.
    pub fn new_single(path: String) -> (s: SourceSelector)
        ensures
            s@ == (SourceView::Single { path: path@ }),
    {
        SourceSelector { form: Form::Single { path } }
    }

    /// A selector with the default place `default` and no override yet.
    pub fn new_per_system(default: String) -> (s: SourceSelector)
        ensures
            s@ == (SourceView::PerSystem { default: default@, overrides: Map::empty() }),
    {
        SourceSelector { form: Form::PerSystem { default, overrides: NameMap::new() } }
    }

    /// Whether the selector has one place for every system. No override
    /// equals the default, whatever the form.
    pub fn is_single(&self) -> (single: bool)
        ensures
            single == (self@ is Single),
            diverges(self@),
    {
        proof {
            use_type_invariant(self);
        }
        match &self.form {
            Form::Single { .. } => true,
            Form::PerSystem { .. } => false,
        }
    }

    /// The one place, or the default place.
    pub fn default_path(&self) -> (path: &String)
        ensures
            path@ == source_for(self@, None),
    {
        match &self.form {
            Form::Single { path } => path,
            Form::PerSystem { default, .. } => default,
        }
    }

    /// The places that systems have of their own; `None` for a single place.
    pub fn overrides(&self) -> (table: Option<&NameMap<String>>)
        ensures
            match table {
                Some(t) => self@ == (SourceView::PerSystem {
                    default: source_for(self@, None),
                    overrides: t@,
                }),
                None => self@ is Single,
            },
            diverges(self@),
    {
        proof {
            use_type_invariant(self);
        }
        match &self.form {
            Form::Single { .. } => None,
            Form::PerSystem { overrides, .. } => Some(overrides),
        }
    }

    /// The place that serves `system`.
    pub fn resolve_for(&self, system: Option<&str>) -> (path: String)
        ensures
            path@ == source_for(self@, view_of(system)),
    {
        match &self.form {
            Form::Single { path } => path.clone(),
            Form::PerSystem { default, overrides } => {
                let own: Option<&String> = match system {
                    Some(name) => overrides.get(name),
                    None => None,
                };
                match own {
                    Some(path) => path.clone(),
                    None => default.clone(),
                }
            },
        }
    }

    /// The selector after `system` was given the place `path`. The value at
    /// hand stays as it was: the caller puts the result in its place.
    pub fn insert_override(&self, system: &str, path: &str) -> (s: SourceSelector)
        ensures
            s@ == with_override(self@, system@, path@),
            diverges(s@),
    {
        proof {
            use_type_invariant(self);
        }
        match &self.form {
            Form::Single { path: only } => {
                if same_text(path, only.as_str()) {
                    SourceSelector {
                        form: Form::PerSystem { default: only.clone(), overrides: NameMap::new() },
                    }
                } else {
                    let mut overrides: NameMap<String> = NameMap::new();
                    overrides.insert(String::from_str(system), String::from_str(path));
                    SourceSelector { form: Form::PerSystem { default: only.clone(), overrides } }
                }
            },
            Form::PerSystem { default, overrides: old } => {
                let mut overrides = old.clone();
                if same_text(path, default.as_str()) {
                    overrides.remove(system);
                } else {
                    overrides.insert(String::from_str(system), String::from_str(path));
                }
                SourceSelector { form: Form::PerSystem { default: default.clone(), overrides } }
            },
        }
    }

    /// Whether `other` is one of the places of the selector or lies under
    /// one, all paths taken from the directory `root`.
    pub fn contains_path(&self, root: &str, other: &str) -> (inside: bool)
        ensures
            inside == source_holds(self@, root@, other@),
    {
        let there = join(root, other);
        match &self.form {
            Form::Single { path } => {
                let here = join(root, path.as_str());
                is_within(here.as_str(), there.as_str())
            },
            Form::PerSystem { default, overrides: table } => {
                let here = join(root, default.as_str());
                if is_within(here.as_str(), there.as_str()) {
                    return true;
                }
                let n = table.len();
                let mut i: usize = 0;
                proof {
                    table.lemma_view();
                }
                while i < n
                    invariant
                        i <= n,
                        n == table.names().len(),
                        n == table.values().len(),
                        table.names().no_duplicates(),
                        there@ == joined(root@, other@),
                        self@ == (SourceView::PerSystem { default: default@, overrides: table@ }),
                        forall|j: int|
                            0 <= j < i ==> !within(
                                joined(root@, #[trigger] table.values()[j]),
                                there@,
                            ),
                    decreases n - i,
                {
                    let place = join(root, table.value_at(i).as_str());
                    if is_within(place.as_str(), there.as_str()) {
                        proof {
                            table.lemma_view();
                            crate::name_map::lemma_table_at(
                                table.names(),
                                table.values(),
                                i as int,
                            );
                            let system = table.names()[i as int];
                            let overrides = self@->PerSystem_overrides;
                            assert(overrides.contains_key(system) && within(
                                joined(root@, overrides[system]),
                                there@,
                            ));
                        }
                        return true;
                    }
                    i += 1;
                }
                proof {
                    assert forall|system: Seq<char>| table@.contains_key(system) implies !within(
                        joined(root@, #[trigger] table@[system]),
                        there@,
                    ) by {
                    }
                }
                false
            },
        }
    }

    /// A summary for the user that tells a single place from a default with
    /// overrides, and says how many systems have a place of their own.
    pub fn describe(&self) -> (text: String)
        ensures
            text@ == summary_of(self@),
    {
        match &self.form {
            Form::Single { path } => glue("single source ", path.as_str()),
            Form::PerSystem { default, overrides } => {
                let mut text = decimal_text(overrides.len() as u64);
                text.append(" system overrides + default ");
                text.append(default.as_str());
                text
            },
        }
    }
}

impl Clone for SourceSelector {
    fn clone(&self) -> (copy: Self)
        ensures
            copy@ == self@,
    {
        proof {
            use_type_invariant(self);
        }
        match &self.form {
            Form::Single { path } => SourceSelector { form: Form::Single { path: path.clone() } },
            Form::PerSystem { default, overrides } => SourceSelector {
                form: Form::PerSystem { default: default.clone(), overrides: overrides.clone() },
            },
        }
    }
}

} // verus!

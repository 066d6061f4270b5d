//! Finding the file that a path names, and the place for its managed copy.

use vstd::prelude::*;
use crate::config::{ContextView, ProjectContext};
use crate::error::{outcome, ActionError, ErrorView};
use crate::path::{file_name, file_name_of, has_root, join, joined, relative_to, rooted, strip_prefix};
use crate::snapshot::{observe, observed, FactsView, Snapshot};
use crate::variable_path::{resolved, VariablePath};
use crate::text::{glue, view_of};

verus! {

/// The variables that the project of `ctx` defines.
pub open spec fn variables_of(ctx: ContextView) -> Map<Seq<char>, Seq<char>> {
    match ctx.project.variables {
        Some(table) => table,
        None => Map::empty(),
    }
}

/// A file that is to be managed: the path under which the project will
/// know it, the real file behind that path, and whether it is a directory.
#[derive(Debug)]
pub struct Located {
    pub location: VariablePath,
    pub canonical: String,
    pub is_dir: bool,
}

/// `Located` as a value of mathematics.
pub struct LocatedView {
    pub location: Seq<char>,
    pub canonical: Seq<char>,
    pub is_dir: bool,
}

impl View for Located {
    type V = LocatedView;

    open spec fn view(&self) -> LocatedView {
        LocatedView {
            location: self.location@,
            canonical: self.canonical@,
            is_dir: self.is_dir,
        }
    }
}

/// The path under which a file named as `raw` is known. A path with a root
/// is taken as it is. A path without a root at which something exists is
/// taken from the current directory; one at which nothing exists stays as
/// it is.
pub open spec fn absolute(ctx: ContextView, fs: Map<Seq<char>, FactsView>, raw: Seq<char>) -> Result<
    Seq<char>,
    ErrorView,
> {
    if rooted(raw) {
        Ok(raw)
    } else {
        match observed(fs, raw) {
            Err(e) => Err(e),
            Ok(facts) => if facts.canonical is Some {
                Ok(ctx.current_dir + seq!['/'] + raw)
            } else {
                Ok(raw)
            },
        }
    }
}

/// The file that `raw` names: its path made absolute, the variables in it
/// resolved, and the real file found. `NotFound` where nothing exists
/// there.
pub open spec fn located(ctx: ContextView, fs: Map<Seq<char>, FactsView>, raw: Seq<char>) -> Result<
    LocatedView,
    ErrorView,
> {
    match absolute(ctx, fs, raw) {
        Err(e) => Err(e),
        Ok(location) => match resolved(location, variables_of(ctx)) {
            Err(e) => Err(e),
            Ok(path) => match observed(fs, path) {
                Err(e) => Err(e),
                Ok(facts) => match facts.canonical {
                    None => Err(ErrorView::NotFound { path: location }),
                    Some(canonical) => Ok(
                        LocatedView { location, canonical, is_dir: facts.is_dir },
                    ),
                },
            },
        },
    }
}

/// Makes the path `raw` absolute.
pub fn absolutize(ctx: &ProjectContext, fs: &Snapshot, raw: &str) -> (out: Result<
    VariablePath,
    ActionError,
>)
    ensures
        outcome(out) == absolute(ctx@, fs@, raw@),
{
    if has_root(raw) {
        return Ok(VariablePath::new(String::from_str(raw)));
    }
    let facts = observe(fs, raw)?;
    if facts.canonical.is_some() {
        let mut text = glue(ctx.current_dir.as_str(), "/");
        proof {
            reveal_strlit("/");
            assert("/"@ =~= seq!['/']);
        }
        text.append(raw);
        Ok(VariablePath::new(text))
    } else {
        Ok(VariablePath::new(String::from_str(raw)))
    }
}

/// Finds the file that `raw` names.
pub fn locate(ctx: &ProjectContext, fs: &Snapshot, raw: &str) -> (out: Result<Located, ActionError>)
    ensures
        outcome(out) == located(ctx@, fs@, raw@),
{
    let location = absolutize(ctx, fs, raw)?;
    let path = location.resolve(ctx.project.variables.as_ref())?;
    let facts = observe(fs, path.as_str())?;
    match &facts.canonical {
        None => Err(ActionError::NotFound { path: location.raw }),
        Some(canonical) => Ok(
            Located { location, canonical: canonical.clone(), is_dir: facts.is_dir },
        ),
    }
}

/// The place, seen from the project's directory, at which the managed
/// copy of the file `canonical` is to lie. With no place asked for it is
/// the file's own name, at the top of the project. A place that is asked
/// for is taken from the project's directory where it lies in it; where a
/// directory stands there, the file goes into it under its own name.
pub open spec fn destination_for(
    ctx: ContextView,
    fs: Map<Seq<char>, FactsView>,
    destination: Option<Seq<char>>,
    canonical: Seq<char>,
) -> Result<Seq<char>, ErrorView> {
    let root = ctx.project_config_path;
    match destination {
        None => match file_name_of(canonical) {
            Some(name) => Ok(name),
            None => Err(ErrorView::NoFileName { path: canonical }),
        },
        Some(asked) => {
            let place = match relative_to(root, asked) {
                Some(rest) => rest,
                None => asked,
            };
            match observed(fs, joined(root, place)) {
                Err(e) => Err(e),
                Ok(facts) => if facts.canonical is Some && facts.is_dir {
                    match file_name_of(canonical) {
                        Some(name) => Ok(joined(place, name)),
                        None => Err(ErrorView::NoFileName { path: canonical }),
                    }
                } else {
                    Ok(place)
                },
            }
        },
    }
}

/// Decides where the managed copy of the file `canonical` is to lie.
pub fn derive_destination(
    ctx: &ProjectContext,
    fs: &Snapshot,
    destination: Option<&str>,
    canonical: &str,
) -> (out: Result<String, ActionError>)
    ensures
        outcome(out) == destination_for(ctx@, fs@, view_of(destination), canonical@),
{
    let root = ctx.project_config_path.as_str();
    match destination {
        None => match file_name(canonical) {
            Some(name) => Ok(name),
            None => Err(ActionError::NoFileName { path: String::from_str(canonical) }),
        },
        Some(asked) => {
            let place = match strip_prefix(root, asked) {
                Some(rest) => rest,
                None => String::from_str(asked),
            };
            let probe = join(root, place.as_str());
            let facts = observe(fs, probe.as_str())?;
            if facts.canonical.is_some() && facts.is_dir {
                match file_name(canonical) {
                    Some(name) => Ok(join(place.as_str(), name.as_str())),
                    None => Err(ActionError::NoFileName { path: String::from_str(canonical) }),
                }
            } else {
                Ok(place)
            }
        },
    }
}

} // verus!

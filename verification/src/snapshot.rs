//! What was seen of the file system: the actions decide on a snapshot that
//! their caller has taken, and say which path they still need to know of.

use vstd::prelude::*;
use crate::error::{outcome, ActionError, ErrorView};
use crate::name_map::{NameMap, Replicate};

verus! {

/// What the file system showed of one path.
#[derive(Debug, PartialEq, Eq)]
pub struct Facts {
    /// The path of the real file behind it, with every symbolic link and
    /// relative part resolved; `None` where nothing exists there.
    pub canonical: Option<String>,
    /// Whether a directory stands there.
    pub is_dir: bool,
}

/// `Facts` as a value of mathematics.
pub struct FactsView {
    pub canonical: Option<Seq<char>>,
    pub is_dir: bool,
}

impl View for Facts {
    type V = FactsView;

    open spec fn view(&self) -> FactsView {
        FactsView {
            canonical: match self.canonical {
                Some(path) => Some(path@),
                None => None,
            },
            is_dir: self.is_dir,
        }
    }
}

impl Clone for Facts {
    fn clone(&self) -> (copy: Self)
        ensures
            copy@ == self@,
    {
        Facts {
            canonical: match &self.canonical {
                Some(path) => Some(path.clone()),
                None => None,
            },
            is_dir: self.is_dir,
        }
    }
}

impl Replicate for Facts {
    fn replicate(&self) -> (copy: Facts) {
        self.clone()
    }
}

impl Facts {
    /// The facts of a path at which nothing exists.
    pub fn absent() -> (facts: Facts)
        ensures
            facts@ == (FactsView { canonical: None, is_dir: false }),
    {
        Facts { canonical: None, is_dir: false }
    }

    /// The facts of a path behind which the file or directory `canonical`
    /// stands.
    pub fn present(canonical: String, is_dir: bool) -> (facts: Facts)
        ensures
            facts@ == (FactsView { canonical: Some(canonical@), is_dir }),
    {
        Facts { canonical: Some(canonical), is_dir }
    }
}

/// The paths that were looked at, each with what it showed.
pub type Snapshot = NameMap<Facts>;

/// What a snapshot says of `path`, or that it has to be looked at first.
pub open spec fn observed(fs: Map<Seq<char>, FactsView>, path: Seq<char>) -> Result<
    FactsView,
    ErrorView,
> {
    if fs.contains_key(path) {
        Ok(fs[path])
    } else {
        Err(ErrorView::Unobserved { path })
    }
}

/// What the snapshot says of `path`; `Unobserved` where it says nothing.
pub fn observe<'a>(fs: &'a Snapshot, path: &str) -> (out: Result<&'a Facts, ActionError>)
    ensures
        outcome(out) == observed(fs@, path@),
{
    match fs.get(path) {
        Some(facts) => Ok(facts),
        None => Err(ActionError::Unobserved { path: String::from_str(path) }),
    }
}

/// What a snapshot shows once the three steps of a move are made: what
/// stood at the real path `original` stands at `managed`, and every path
/// behind which it stood leads there now, through the symbolic link that
/// stands in its place. The rest is as it was.
pub open spec fn after_move(
    fs: Map<Seq<char>, FactsView>,
    original: Seq<char>,
    managed: Seq<char>,
    is_dir: bool,
) -> Map<Seq<char>, FactsView> {
    Map::new(
        |path: Seq<char>| fs.contains_key(path) || path == managed,
        |path: Seq<char>|
            if path == managed || fs[path].canonical == Some(original) {
                FactsView { canonical: Some(managed), is_dir }
            } else {
                fs[path]
            },
    )
}

/// What a snapshot shows once the three steps of a restoring are made:
/// nothing stands at `managed`, where the copy with the real path `copy`
/// stood, and every other path behind which the copy stood leads to the
/// restored file `restored`. The rest is as it was.
pub open spec fn after_restore(
    fs: Map<Seq<char>, FactsView>,
    copy: Seq<char>,
    managed: Seq<char>,
    restored: Seq<char>,
) -> Map<Seq<char>, FactsView> {
    Map::new(
        |path: Seq<char>| fs.contains_key(path),
        |path: Seq<char>|
            if fs[path].canonical != Some(copy) {
                fs[path]
            } else if path == managed {
                FactsView { canonical: None, is_dir: false }
            } else {
                FactsView { canonical: Some(restored), is_dir: fs[path].is_dir }
            },
    )
}

/// Whether nothing that `fs` shows leads to `place`.
pub open spec fn led_to_by_none(fs: Map<Seq<char>, FactsView>, place: Seq<char>) -> bool {
    forall|path: Seq<char>| fs.contains_key(path) ==> (#[trigger] fs[path]).canonical != Some(place)
}

} // verus!

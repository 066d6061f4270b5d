//! The changes that an action asks of the file system, in the order in which
//! they are to be made, and what they do to the files they touch.

use vstd::prelude::*;

verus! {

/// One change to the file system.
#[derive(Debug, PartialEq, Eq)]
pub enum FsAction {
    /// Create the directory `path` and every directory above it that is
    /// missing.
    CreateDirAll { path: String },
    /// Copy the file `from` to `to`.
    CopyFile { from: String, to: String },
    /// Copy the directory `from`, with all that is in it, to `to`.
    CopyDir { from: String, to: String },
    /// Remove the file, or the symbolic link, `path`.
    RemoveFile { path: String },
    /// Remove the directory `path` with all that is in it.
    RemoveDirAll { path: String },
    /// Create at `link` a symbolic link that points to `target`.
    Symlink { target: String, link: String },
}

/// An `FsAction` as a value of mathematics.
pub enum ActionView {
    CreateDirAll { path: Seq<char> },
    CopyFile { from: Seq<char>, to: Seq<char> },
    CopyDir { from: Seq<char>, to: Seq<char> },
    RemoveFile { path: Seq<char> },
    RemoveDirAll { path: Seq<char> },
    Symlink { target: Seq<char>, link: Seq<char> },
}

impl View for FsAction {
    type V = ActionView;

    open spec fn view(&self) -> ActionView {
        match self {
            FsAction::CreateDirAll { path } => ActionView::CreateDirAll { path: path@ },
            FsAction::CopyFile { from, to } => ActionView::CopyFile { from: from@, to: to@ },
            FsAction::CopyDir { from, to } => ActionView::CopyDir { from: from@, to: to@ },
            FsAction::RemoveFile { path } => ActionView::RemoveFile { path: path@ },
            FsAction::RemoveDirAll { path } => ActionView::RemoveDirAll { path: path@ },
            FsAction::Symlink { target, link } => ActionView::Symlink {
                target: target@,
                link: link@,
            },
        }
    }
}

impl Clone for FsAction {
    fn clone(&self) -> (copy: Self)
        ensures
            copy@ == self@,
    {
        match self {
            FsAction::CreateDirAll { path } => FsAction::CreateDirAll { path: path.clone() },
            FsAction::CopyFile { from, to } => FsAction::CopyFile {
                from: from.clone(),
                to: to.clone(),
            },
            FsAction::CopyDir { from, to } => FsAction::CopyDir {
                from: from.clone(),
                to: to.clone(),
            },
            FsAction::RemoveFile { path } => FsAction::RemoveFile { path: path.clone() },
            FsAction::RemoveDirAll { path } => FsAction::RemoveDirAll { path: path.clone() },
            FsAction::Symlink { target, link } => FsAction::Symlink {
                target: target.clone(),
                link: link.clone(),
            },
        }
    }
}

/// The actions of a list, each as a value of mathematics.
pub open spec fn plan_view(plan: Seq<FsAction>) -> Seq<ActionView> {
    plan.map_values(|a: FsAction| a@)
}

/// The copy of what stands at `from` to `to`: of a directory with all that
/// is in it, of a file alone.
pub open spec fn copy_step(from: Seq<char>, to: Seq<char>, is_dir: bool) -> ActionView {
    if is_dir {
        ActionView::CopyDir { from, to }
    } else {
        ActionView::CopyFile { from, to }
    }
}

/// The removal of what stands at `path`.
pub open spec fn remove_step(path: Seq<char>, is_dir: bool) -> ActionView {
    if is_dir {
        ActionView::RemoveDirAll { path }
    } else {
        ActionView::RemoveFile { path }
    }
}

/// The three steps that put what stands at `original` under management at
/// `managed`: copy it there, remove the original, and leave a symbolic link
/// to the copy where the original stood.
pub open spec fn move_steps(original: Seq<char>, managed: Seq<char>, is_dir: bool) -> Seq<
    ActionView,
> {
    seq![
        copy_step(original, managed, is_dir),
        remove_step(original, is_dir),
        ActionView::Symlink { target: managed, link: original },
    ]
}

/// The three steps that take `managed` out of management again: remove the
/// symbolic link at `original`, copy the managed content back to where the
/// link stood, and remove the managed copy.
pub open spec fn restore_steps(original: Seq<char>, managed: Seq<char>, is_dir: bool) -> Seq<
    ActionView,
> {
    seq![
        ActionView::RemoveFile { path: original },
        copy_step(managed, original, is_dir),
        remove_step(managed, is_dir),
    ]
}

fn copy_action(from: &str, to: &str, is_dir: bool) -> (step: FsAction)
    ensures
        step@ == copy_step(from@, to@, is_dir),
{
    if is_dir {
        FsAction::CopyDir { from: String::from_str(from), to: String::from_str(to) }
    } else {
        FsAction::CopyFile { from: String::from_str(from), to: String::from_str(to) }
    }
}

fn remove_action(path: &str, is_dir: bool) -> (step: FsAction)
    ensures
        step@ == remove_step(path@, is_dir),
{
    if is_dir {
        FsAction::RemoveDirAll { path: String::from_str(path) }
    } else {
        FsAction::RemoveFile { path: String::from_str(path) }
    }
}

/// The steps that put what stands at `original` under management at
/// `managed`. `is_dir` says whether `original` is a directory.
pub fn move_link(original: &str, managed: &str, is_dir: bool) -> (plan: Vec<FsAction>)
    ensures
        plan_view(plan@) == move_steps(original@, managed@, is_dir),
{
    let mut plan: Vec<FsAction> = Vec::new();
    plan.push(copy_action(original, managed, is_dir));
    plan.push(remove_action(original, is_dir));
    plan.push(
        FsAction::Symlink { target: String::from_str(managed), link: String::from_str(original) },
    );
    plan
}

/// The steps that take `managed` out of management and put its content back
/// at `original`. `is_dir` says whether `managed` is a directory.
pub fn restore_link(original: &str, managed: &str, is_dir: bool) -> (plan: Vec<FsAction>)
    ensures
        plan_view(plan@) == restore_steps(original@, managed@, is_dir),
{
    let mut plan: Vec<FsAction> = Vec::new();
    plan.push(FsAction::RemoveFile { path: String::from_str(original) });
    plan.push(copy_action(managed, original, is_dir));
    plan.push(remove_action(managed, is_dir));
    plan
}

/// What stands at a path, as far as the actions care.
pub enum Entry {
    /// A file or a directory with the content `content`.
    Content { content: int },
    /// A symbolic link to `target`.
    LinkTo { target: Seq<char> },
}

/// The files, directories and symbolic links that the actions move about,
/// each under the place where it stands. Directories that only hold them
/// are left out.
pub type Tree = Map<Seq<char>, Entry>;

/// Where a path leads: the place at which its last part stands, with every
/// symbolic link among the directories above it resolved. Two paths that
/// name one file lead to one place, however they are written.
pub type Sites = spec_fn(Seq<char>) -> Seq<char>;

/// The tree after one action, each path of the action taken to the place
/// it leads to. Creating directories changes nothing that the tree shows;
/// a copy of something that is not there changes nothing.
pub open spec fn after(tree: Tree, sites: Sites, action: ActionView) -> Tree {
    match action {
        ActionView::CreateDirAll { .. } => tree,
        ActionView::CopyFile { from, to } => if tree.contains_key(sites(from)) {
            tree.insert(sites(to), tree[sites(from)])
        } else {
            tree
        },
        ActionView::CopyDir { from, to } => if tree.contains_key(sites(from)) {
            tree.insert(sites(to), tree[sites(from)])
        } else {
            tree
        },
        ActionView::RemoveFile { path } => tree.remove(sites(path)),
        ActionView::RemoveDirAll { path } => tree.remove(sites(path)),
        ActionView::Symlink { target, link } => tree.insert(
            sites(link),
            Entry::LinkTo { target },
        ),
    }
}

/// The tree after the actions of `plan`, made in order.
pub open spec fn after_all(tree: Tree, sites: Sites, plan: Seq<ActionView>) -> Tree
    decreases plan.len(),
{
    if plan.len() == 0 {
        tree
    } else {
        after(after_all(tree, sites, plan.drop_last()), sites, plan.last())
    }
}

} // verus!

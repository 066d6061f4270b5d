//! Putting the symbolic links of a project in place.

use vstd::prelude::*;
use crate::actions::locate::variables_of;
use crate::actions::outcome::{active_system, Outcome, OutcomeView};
use crate::config::{ContextView, ProjectContext};
use crate::error::{outcome, ActionError, ErrorView};
use crate::link::{link_views, Link, LinkView};
use crate::path::{join, joined, parent, parent_of};
use crate::plan::{plan_view, ActionView, FsAction};
use crate::snapshot::{observe, observed, FactsView, Snapshot};
use crate::source::source_for;
use crate::variable_path::resolved;

verus! {

/// The steps that put a symbolic link to `managed` at `place`, after
/// creating the directory for it where `place` has one above it.
pub open spec fn link_steps(place: Seq<char>, managed: Seq<char>) -> Seq<ActionView> {
    let link = ActionView::Symlink { target: managed, link: place };
    match parent_of(place) {
        Some(directory) => seq![ActionView::CreateDirAll { path: directory }, link],
        None => seq![link],
    }
}

/// What one link asks for. Its managed copy for the active system has to
/// exist. Where nothing exists at the destination, the symbolic link is
/// made; where the managed copy is found there already, nothing is to do;
/// anything else at the destination is in the way.
pub open spec fn sync_item(ctx: ContextView, fs: Map<Seq<char>, FactsView>, link: LinkView) -> Result<
    Seq<ActionView>,
    ErrorView,
> {
    let managed = joined(ctx.project_config_path, source_for(link.source, ctx.system));
    match resolved(link.destination, variables_of(ctx)) {
        Err(e) => Err(e),
        Ok(place) => match observed(fs, managed) {
            Err(e) => Err(e),
            Ok(copy) => if copy.canonical is None {
                Err(ErrorView::NotFound { path: managed })
            } else {
                match observed(fs, place) {
                    Err(e) => Err(e),
                    Ok(facts) => if facts.canonical is None {
                        Ok(link_steps(place, managed))
                    } else if facts.canonical == copy.canonical {
                        Ok(Seq::empty())
                    } else {
                        Err(ErrorView::DestinationAlreadyExists { path: place })
                    },
                }
            },
        },
    }
}

/// What the links ask for, one after the other; the first that fails
/// fails the whole.
pub open spec fn sync_fold(ctx: ContextView, fs: Map<Seq<char>, FactsView>, links: Seq<LinkView>) -> Result<
    Seq<ActionView>,
    ErrorView,
>
    decreases links.len(),
{
    if links.len() == 0 {
        Ok(Seq::empty())
    } else {
        match sync_fold(ctx, fs, links.drop_last()) {
            Err(e) => Err(e),
            Ok(steps) => match sync_item(ctx, fs, links.last()) {
                Err(e) => Err(e),
                Ok(more) => Ok(steps + more),
            },
        }
    }
}

/// A failure among the first links is the failure of the whole list.
pub proof fn lemma_sync_fail(
    ctx: ContextView,
    fs: Map<Seq<char>, FactsView>,
    links: Seq<LinkView>,
    k: int,
)
    requires
        0 <= k <= links.len(),
        sync_fold(ctx, fs, links.take(k)) is Err,
    ensures
        sync_fold(ctx, fs, links) == sync_fold(ctx, fs, links.take(k)),
    decreases links.len() - k,
{
    if k < links.len() {
        assert(links.take(k + 1).drop_last() =~= links.take(k));
        lemma_sync_fail(ctx, fs, links, k + 1);
    } else {
        assert(links.take(k) =~= links);
    }
}

/// What synchronising comes to: the project as it is, and the steps that
/// its links ask for.
pub open spec fn synced(ctx: ContextView, fs: Map<Seq<char>, FactsView>) -> Result<
    OutcomeView,
    ErrorView,
> {
    match sync_fold(ctx, fs, ctx.project.links) {
        Err(e) => Err(e),
        Ok(plan) => Ok(OutcomeView { config: ctx.project, plan }),
    }
}

/// Decides what one link asks for.
pub fn sync_link(ctx: &ProjectContext, fs: &Snapshot, link: &Link) -> (out: Result<
    Vec<FsAction>,
    ActionError,
>)
    ensures
        match out {
            Ok(steps) => sync_item(ctx@, fs@, link@) == Ok::<Seq<ActionView>, ErrorView>(
                plan_view(steps@),
            ),
            Err(e) => sync_item(ctx@, fs@, link@) == Err::<Seq<ActionView>, ErrorView>(e@),
        },
{
    let source = link.source.resolve_for(active_system(ctx));
    let managed = join(ctx.project_config_path.as_str(), source.as_str());
    let place = link.destination.resolve(ctx.project.variables.as_ref())?;
    let copy = observe(fs, managed.as_str())?;
    let found = match &copy.canonical {
        Some(found) => found,
        None => {
            return Err(ActionError::NotFound { path: managed });
        },
    };
    let facts = observe(fs, place.as_str())?;
    let mut steps: Vec<FsAction> = Vec::new();
    match &facts.canonical {
        None => {
            match parent(place.as_str()) {
                Some(directory) => {
                    steps.push(FsAction::CreateDirAll { path: directory });
                },
                None => {},
            }
            steps.push(FsAction::Symlink { target: managed, link: place });
            assert(plan_view(steps@) =~= link_steps(place@, managed@));
            Ok(steps)
        },
        Some(there) => {
            if crate::text::same_text(there.as_str(), found.as_str()) {
                assert(plan_view(steps@) =~= Seq::<ActionView>::empty());
                Ok(steps)
            } else {
                Err(ActionError::DestinationAlreadyExists { path: place })
            }
        },
    }
}

/// Makes sure that at the destination of every link a symbolic link to the
/// managed copy for the active system stands. The project stays as it is.
pub fn sync(ctx: &ProjectContext, fs: &Snapshot) -> (out: Result<Outcome, ActionError>)
    ensures
        outcome(out) == synced(ctx@, fs@),
{
    let links = &ctx.project.links;
    let ghost all = link_views(links@);
    let mut plan: Vec<FsAction> = Vec::new();
    assert(plan_view(plan@) =~= Seq::<ActionView>::empty());
    let mut i: usize = 0;
    while i < links.len()
        invariant
            i <= links.len(),
            links == &ctx.project.links,
            all == link_views(links@),
            sync_fold(ctx@, fs@, all.take(i as int)) == Ok::<Seq<ActionView>, ErrorView>(
                plan_view(plan@),
            ),
        decreases links.len() - i,
    {
        proof {
            assert(all.take(i + 1).drop_last() =~= all.take(i as int));
        }
        match sync_link(ctx, fs, &links[i]) {
            Err(e) => {
                proof {
                    lemma_sync_fail(ctx@, fs@, all, i + 1);
                }
                return Err(e);
            },
            Ok(more) => {
                let mut more = more;
                let ghost before = plan_view(plan@);
                let ghost tail = plan_view(more@);
                plan.append(&mut more);
                assert(plan_view(plan@) =~= before + tail);
            },
        }
        i += 1;
    }
    assert(all.take(i as int) =~= all);
    Ok(Outcome { config: ctx.project.clone(), plan })
}

} // verus!

//! Giving a link a managed copy of its own for the system that is active.

use vstd::prelude::*;
use crate::actions::add::{is_shadowed, names_distinct, place_link, placed, shadowed};
use crate::actions::identity::{destinations_distinct, identities, identities_of, is_known};
use crate::actions::locate::{derive_destination, destination_for, locate, located, variables_of};
use crate::actions::outcome::{active_system, replace_links, with_links, Outcome, OutcomeView};
use crate::config::{ContextView, ProjectContext};
use crate::error::{outcome, ActionError, ErrorView};
use crate::path::{join, joined, parent, parent_of};
use crate::plan::{move_link, move_steps, plan_view, ActionView, FsAction};
use crate::snapshot::{observe, observed, FactsView, Snapshot};
use crate::text::{borrowed, text_of};

verus! {

/// What re-targeting the file `raw` comes to. The file has to be the
/// destination of a link, and a system has to be active; the place for the
/// copy has to be free, and no managed copy of a link nor under one. Then
/// every link that stands at the file gets the place as its managed copy
/// for the active system, no link is added, and the file is moved as it is
/// when it is added.
pub open spec fn retargeted(
    ctx: ContextView,
    fs: Map<Seq<char>, FactsView>,
    raw: Seq<char>,
    destination: Option<Seq<char>>,
) -> Result<OutcomeView, ErrorView> {
    let root = ctx.project_config_path;
    let links = ctx.project.links;
    match located(ctx, fs, raw) {
        Err(e) => Err(e),
        Ok(site) => match destination_for(ctx, fs, destination, site.canonical) {
            Err(e) => Err(e),
            Ok(dest) => match identities_of(links, variables_of(ctx), fs) {
                Err(e) => Err(e),
                Ok(ids) => match observed(fs, joined(root, dest)) {
                    Err(e) => Err(e),
                    Ok(facts) => if !ids.contains(Some(site.canonical)) {
                        Err(ErrorView::NoSuchLink { path: raw })
                    } else if facts.canonical is Some || shadowed(links, root, dest) {
                        Err(ErrorView::DestinationAlreadyExists { path: site.location })
                    } else {
                        match placed(links, ids, ctx.system, site, dest, site.location) {
                            Err(e) => Err(e),
                            Ok(next) => match parent_of(joined(root, dest)) {
                                None => Err(ErrorView::NoParent { path: joined(root, dest) }),
                                Some(directory) => Ok(
                                    OutcomeView {
                                        config: with_links(ctx, next),
                                        plan: seq![ActionView::CreateDirAll { path: directory }]
                                            + move_steps(
                                            site.canonical,
                                            joined(root, dest),
                                            site.is_dir,
                                        ),
                                    },
                                ),
                            },
                        }
                    },
                },
            },
        },
    }
}

/// Gives the link that stands at `file` a managed copy of its own for the
/// active system, at `destination` or under the file's own name.
pub fn retarget(ctx: &ProjectContext, fs: &Snapshot, file: &str, destination: Option<String>) -> (out:
    Result<Outcome, ActionError>)
    ensures
        outcome(out) == retargeted(ctx@, fs@, file@, text_of(destination)),
        out is Ok ==> out->Ok_0@.config.links.len() == ctx@.project.links.len(),
        out is Ok && destinations_distinct(ctx@.project.links, variables_of(ctx@), fs@)
            ==> destinations_distinct(out->Ok_0@.config.links, variables_of(ctx@), fs@),
        out is Ok && names_distinct(ctx@.project.links) ==> names_distinct(
            out->Ok_0@.config.links,
        ),
{
    proof {
        if retargeted(ctx@, fs@, file@, text_of(destination)) is Ok {
            crate::laws::law_retarget_keeps_links_apart(ctx@, fs@, file@, text_of(destination));
        }
    }
    let root = ctx.project_config_path.as_str();
    let links = &ctx.project.links;
    let site = locate(ctx, fs, file)?;
    let dest = derive_destination(ctx, fs, borrowed(&destination), site.canonical.as_str())?;
    let ids = identities(links, ctx.project.variables.as_ref(), fs)?;
    let target = join(root, dest.as_str());
    let facts = observe(fs, target.as_str())?;
    if !is_known(&ids, site.canonical.as_str()) {
        return Err(ActionError::NoSuchLink { path: String::from_str(file) });
    }
    if facts.canonical.is_some() || is_shadowed(links, root, dest.as_str()) {
        return Err(ActionError::DestinationAlreadyExists { path: site.location.raw });
    }
    let next = place_link(
        links,
        ctx.project.variables.as_ref(),
        fs,
        active_system(ctx),
        &site,
        dest.as_str(),
        site.location.as_str(),
    )?;
    let directory = match parent(target.as_str()) {
        Some(directory) => directory,
        None => {
            return Err(ActionError::NoParent { path: target });
        },
    };
    let mut plan: Vec<FsAction> = Vec::new();
    plan.push(FsAction::CreateDirAll { path: directory });
    let mut steps = move_link(site.canonical.as_str(), target.as_str(), site.is_dir);
    let ghost head = plan_view(plan@);
    let ghost tail = plan_view(steps@);
    plan.append(&mut steps);
    assert(plan_view(plan@) =~= head + tail);
    assert(head =~= seq![ActionView::CreateDirAll { path: directory@ }]);
    Ok(Outcome { config: replace_links(ctx, next), plan })
}

} // verus!

//! Taking a file out of management again.

use vstd::prelude::*;
use crate::actions::add::names_distinct;
use crate::actions::identity::{destinations_distinct, identities, identities_of, Identities};
use crate::actions::locate::{locate, located, variables_of};
use crate::actions::outcome::{active_system, replace_links, with_links, Outcome, OutcomeView};
use crate::config::{ContextView, ProjectContext};
use crate::error::{outcome, ActionError, ErrorView};
use crate::path::{join, joined};
use crate::plan::{restore_link, restore_steps};
use crate::snapshot::{FactsView, Snapshot};
use crate::source::source_for;
use crate::variable_path::resolved;
use crate::link::{copy_links, link_views};

verus! {

/// The position of the first of `ids` that is the real file `wanted`, or
/// the length of `ids` where none is.
pub open spec fn first_hit(ids: Seq<Option<Seq<char>>>, wanted: Seq<char>) -> int
    decreases ids.len(),
{
    if ids.len() == 0 {
        0
    } else if ids[0] == Some(wanted) {
        0
    } else {
        1 + first_hit(ids.drop_first(), wanted)
    }
}

/// `first_hit` names a hit before which there is none.
pub proof fn lemma_first_hit(ids: Seq<Option<Seq<char>>>, wanted: Seq<char>)
    ensures
        0 <= first_hit(ids, wanted) <= ids.len(),
        first_hit(ids, wanted) < ids.len() ==> ids[first_hit(ids, wanted)] == Some(wanted),
        forall|j: int| 0 <= j < first_hit(ids, wanted) ==> ids[j] != Some(wanted),
    decreases ids.len(),
{
    if ids.len() > 0 && ids[0] != Some(wanted) {
        lemma_first_hit(ids.drop_first(), wanted);
        assert forall|j: int| 0 <= j < first_hit(ids, wanted) implies ids[j] != Some(wanted) by {
            if j > 0 {
                assert(ids.drop_first()[j - 1] == ids[j]);
            }
        }
    }
}

/// What reverting the file `file` comes to. The link is the first whose
/// destination is the same real file as `file`. The symbolic link at its
/// destination is removed, the managed copy for the active system is
/// copied back there and removed, and the project loses the link.
pub open spec fn reverted(ctx: ContextView, fs: Map<Seq<char>, FactsView>, file: Seq<char>) -> Result<
    OutcomeView,
    ErrorView,
> {
    let links = ctx.project.links;
    match located(ctx, fs, file) {
        Err(e) => Err(e),
        Ok(site) => match identities_of(links, variables_of(ctx), fs) {
            Err(e) => Err(e),
            Ok(ids) => {
                let at = first_hit(ids, site.canonical);
                if at >= links.len() {
                    Err(ErrorView::NoSuchLink { path: file })
                } else {
                    match resolved(links[at].destination, variables_of(ctx)) {
                        Err(e) => Err(e),
                        Ok(original) => Ok(
                            OutcomeView {
                                config: with_links(ctx, links.remove(at)),
                                plan: restore_steps(
                                    original,
                                    joined(
                                        ctx.project_config_path,
                                        source_for(links[at].source, ctx.system),
                                    ),
                                    site.is_dir,
                                ),
                            },
                        ),
                    }
                }
            },
        },
    }
}

/// The position of the first of `ids` that is the real file `wanted`.
fn find_hit(ids: &Identities, wanted: &str) -> (at: usize)
    ensures
        at == first_hit(ids@, wanted@),
        at <= ids@.len(),
{
    let mut i: usize = 0;
    assert(ids@.skip(0) =~= ids@);
    while i < ids.of.len()
        invariant
            i <= ids.of.len(),
            first_hit(ids@, wanted@) == i + first_hit(ids@.skip(i as int), wanted@),
        decreases ids.of.len() - i,
    {
        let hit = match &ids.of[i] {
            Some(id) => crate::text::same_text(id.as_str(), wanted),
            None => false,
        };
        if hit {
            return i;
        }
        assert(ids@.skip(i as int).drop_first() =~= ids@.skip(i + 1));
        i += 1;
    }
    i
}

/// Takes the file `file` out of management: the link that stands there is
/// dropped from the project, and the plan puts the managed content back
/// where the link stood.
pub fn revert(ctx: &ProjectContext, fs: &Snapshot, file: &str) -> (out: Result<Outcome, ActionError>)
    ensures
        outcome(out) == reverted(ctx@, fs@, file@),
        out is Ok && destinations_distinct(ctx@.project.links, variables_of(ctx@), fs@)
            ==> destinations_distinct(out->Ok_0@.config.links, variables_of(ctx@), fs@),
        out is Ok && names_distinct(ctx@.project.links) ==> names_distinct(
            out->Ok_0@.config.links,
        ),
{
    proof {
        if reverted(ctx@, fs@, file@) is Ok && destinations_distinct(
            ctx@.project.links,
            variables_of(ctx@),
            fs@,
        ) {
            crate::laws::law_revert_keeps_destinations_distinct(ctx@, fs@, file@);
        }
    }
    let links = &ctx.project.links;
    let variables = ctx.project.variables.as_ref();
    let site = locate(ctx, fs, file)?;
    let ids = identities(links, variables, fs)?;
    let at = find_hit(&ids, site.canonical.as_str());
    if at >= links.len() {
        return Err(ActionError::NoSuchLink { path: String::from_str(file) });
    }
    let original = links[at].destination.resolve(variables)?;
    let source = links[at].source.resolve_for(active_system(ctx));
    let managed = join(ctx.project_config_path.as_str(), source.as_str());
    let plan = restore_link(original.as_str(), managed.as_str(), site.is_dir);
    let mut rest = copy_links(links);
    let ghost before = link_views(rest@);
    rest.remove(at);
    assert(link_views(rest@) =~= before.remove(at as int));
    Ok(Outcome { config: replace_links(ctx, rest), plan })
}

} // verus!

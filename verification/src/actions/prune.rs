//! Dropping the links whose destination is gone.

use vstd::prelude::*;
use crate::actions::add::names_distinct;
use crate::actions::identity::destinations_distinct;
use crate::actions::locate::variables_of;
use crate::actions::outcome::{replace_links, with_links};
use crate::config::{ContextView, ProjectConfig, ProjectContext, ProjectView};
use crate::error::{outcome, ActionError, ErrorView};
use crate::link::{link_views, Link, LinkView};
use crate::snapshot::{observe, observed, FactsView, Snapshot};
use crate::variable_path::resolved;

verus! {

/// Whether something still exists at the destination of `link`.
pub open spec fn stands(
    link: LinkView,
    variables: Map<Seq<char>, Seq<char>>,
    fs: Map<Seq<char>, FactsView>,
) -> Result<bool, ErrorView> {
    match resolved(link.destination, variables) {
        Err(e) => Err(e),
        Ok(path) => match observed(fs, path) {
            Err(e) => Err(e),
            Ok(facts) => Ok(facts.canonical is Some),
        },
    }
}

/// The links of `links` at whose destination something still exists, in
/// their order. A destination that cannot be resolved, and the first that
/// `fs` says nothing of, fail the whole.
pub open spec fn standing(
    links: Seq<LinkView>,
    variables: Map<Seq<char>, Seq<char>>,
    fs: Map<Seq<char>, FactsView>,
) -> Result<Seq<LinkView>, ErrorView>
    decreases links.len(),
{
    if links.len() == 0 {
        Ok(Seq::empty())
    } else {
        match standing(links.drop_last(), variables, fs) {
            Err(e) => Err(e),
            Ok(kept) => match stands(links.last(), variables, fs) {
                Err(e) => Err(e),
                Ok(true) => Ok(kept.push(links.last())),
                Ok(false) => Ok(kept),
            },
        }
    }
}

/// A failure among the first links is the failure of the whole list.
pub proof fn lemma_standing_fail(
    links: Seq<LinkView>,
    variables: Map<Seq<char>, Seq<char>>,
    fs: Map<Seq<char>, FactsView>,
    k: int,
)
    requires
        0 <= k <= links.len(),
        standing(links.take(k), variables, fs) is Err,
    ensures
        standing(links, variables, fs) == standing(links.take(k), variables, fs),
    decreases links.len() - k,
{
    if k < links.len() {
        assert(links.take(k + 1).drop_last() =~= links.take(k));
        lemma_standing_fail(links, variables, fs, k + 1);
    } else {
        assert(links.take(k) =~= links);
    }
}

/// What pruning comes to: the project with the links that still stand.
pub open spec fn pruned(ctx: ContextView, fs: Map<Seq<char>, FactsView>) -> Result<
    ProjectView,
    ErrorView,
> {
    match standing(ctx.project.links, variables_of(ctx), fs) {
        Err(e) => Err(e),
        Ok(kept) => Ok(with_links(ctx, kept)),
    }
}

/// The project without the links at whose destination nothing exists any
/// more. The other links stay as they are, in their order. Nothing is
/// asked of the file system.
pub fn prune(ctx: &ProjectContext, fs: &Snapshot) -> (out: Result<ProjectConfig, ActionError>)
    ensures
        outcome(out) == pruned(ctx@, fs@),
        out is Ok && destinations_distinct(ctx@.project.links, variables_of(ctx@), fs@)
            ==> destinations_distinct(out->Ok_0@.links, variables_of(ctx@), fs@),
        out is Ok && names_distinct(ctx@.project.links) ==> names_distinct(out->Ok_0@.links),
{
    proof {
        if pruned(ctx@, fs@) is Ok && names_distinct(ctx@.project.links) {
            crate::laws::law_prune_keeps_names_distinct(ctx@, fs@);
        }
        if pruned(ctx@, fs@) is Ok && destinations_distinct(
            ctx@.project.links,
            variables_of(ctx@),
            fs@,
        ) {
            crate::laws::law_prune_keeps_destinations_distinct(ctx@, fs@);
        }
    }
    let links = &ctx.project.links;
    let ghost all = link_views(links@);
    let ghost vars = variables_of(ctx@);
    let mut kept: Vec<Link> = Vec::new();
    assert(link_views(kept@) =~= Seq::<LinkView>::empty());
    let mut i: usize = 0;
    while i < links.len()
        invariant
            i <= links.len(),
            links == &ctx.project.links,
            all == link_views(links@),
            vars == variables_of(ctx@),
            standing(all.take(i as int), vars, fs@) == Ok::<Seq<LinkView>, ErrorView>(
                link_views(kept@),
            ),
        decreases links.len() - i,
    {
        proof {
            assert(all.take(i + 1).drop_last() =~= all.take(i as int));
        }
        let path = match links[i].destination.resolve(ctx.project.variables.as_ref()) {
            Ok(path) => path,
            Err(e) => {
                proof {
                    lemma_standing_fail(all, vars, fs@, i + 1);
                }
                return Err(e);
            },
        };
        let facts = match observe(fs, path.as_str()) {
            Ok(facts) => facts,
            Err(e) => {
                proof {
                    lemma_standing_fail(all, vars, fs@, i + 1);
                }
                return Err(e);
            },
        };
        if facts.canonical.is_some() {
            let ghost before = link_views(kept@);
            let link = links[i].clone();
            kept.push(link);
            assert(link_views(kept@) =~= before.push(link@));
        }
        i += 1;
    }
    assert(all.take(i as int) =~= all);
    Ok(replace_links(ctx, kept))
}

} // verus!

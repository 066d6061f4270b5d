//! What holds of the actions whatever they are given.

use vstd::prelude::*;
use crate::actions::add::{
    add_one, add_spec, admitted, batch_directory, batch_fold, batch_item, first_of_each,
    name_for, names_distinct, new_link, retargeted_links, taken, BatchView,
};
use crate::actions::identity::{
    destinations_distinct, identities_of, identity_of, lemma_identities_build,
    lemma_identities_each, lemma_identities_remove,
};
use crate::actions::locate::{destination_for, located, variables_of, LocatedView};
use crate::actions::prune::{pruned, standing, stands};
use crate::actions::retarget::retargeted;
use crate::actions::revert::{first_hit, lemma_first_hit, reverted};
use crate::actions::sync::{sync_fold, synced};
use crate::config::{machine_document, project_document, ContextView};
use crate::error::ErrorView;
use crate::link::LinkView;
use crate::path::{
    all_parts, chain, file_name_of, joined, lemma_chain, lemma_parts, lemma_parts_joined,
    parent_of, parts, relative_to, resolved_parts, rooted, same_place, spelled, within,
};
use crate::plan::{
    after, after_all, move_steps, restore_steps, ActionView, Entry, Sites, Tree,
};
use crate::snapshot::{after_move, after_restore, led_to_by_none, FactsView};
use crate::source::{diverges, source_for, with_override, SourceView};
use crate::variable_path::{expand_from, expanded, resolved};

verus! {

/// Giving a system a place twice is the same as giving it once; the system
/// is then served by that place; and every other system is served as
/// before.
pub proof fn law_override_idempotent(
    s: SourceView,
    system: Seq<char>,
    path: Seq<char>,
    other: Seq<char>,
)
    ensures
        with_override(with_override(s, system, path), system, path) == with_override(
            s,
            system,
            path,
        ),
        source_for(with_override(s, system, path), Some(system)) == path,
        other != system ==> source_for(with_override(s, system, path), Some(other)) == source_for(
            s,
            Some(other),
        ),
        source_for(with_override(s, system, path), None) == source_for(s, None),
{
    let once = with_override(s, system, path);
    match once {
        SourceView::Single { .. } => {},
        SourceView::PerSystem { default, overrides } => {
            if path == default {
                assert(overrides.remove(system) =~= overrides);
            } else {
                assert(overrides.insert(system, path) =~= overrides);
            }
        },
    }
}

/// Of two places given to a system one after the other, the second serves
/// it.
pub proof fn law_last_override_wins(
    s: SourceView,
    system: Seq<char>,
    first: Seq<char>,
    second: Seq<char>,
)
    ensures
        source_for(with_override(with_override(s, system, first), system, second), Some(system))
            == second,
{
}

/// A selector in which no override equals the default stays so when a
/// system is given a place.
pub proof fn law_override_diverges(s: SourceView, system: Seq<char>, path: Seq<char>)
    requires
        diverges(s),
    ensures
        diverges(with_override(s, system, path)),
{
}

/// Whatever `place_link` is given: where no two links have the same real
/// file behind their destination, and the file that is taken in is the real
/// file behind the path under which it is known, no two of the links that
/// come out have.
pub proof fn law_place_keeps_destinations_distinct(
    links: Seq<LinkView>,
    variables: Map<Seq<char>, Seq<char>>,
    fs: Map<Seq<char>, FactsView>,
    system: Option<Seq<char>>,
    site: LocatedView,
    dest: Seq<char>,
    name: Seq<char>,
)
    requires
        destinations_distinct(links, variables, fs),
        admitted(links, variables, fs, system, site, dest, name) is Ok,
        identity_of(new_link(name, site.location, dest), variables, fs) == Ok::<
            Option<Seq<char>>,
            ErrorView,
        >(Some(site.canonical)),
    ensures
        destinations_distinct(
            admitted(links, variables, fs, system, site, dest, name)->Ok_0,
            variables,
            fs,
        ),
{
    let ids = identities_of(links, variables, fs)->Ok_0;
    let next = admitted(links, variables, fs, system, site, dest, name)->Ok_0;
    lemma_identities_each(links, variables, fs);
    if ids.contains(Some(site.canonical)) {
        assert forall|i: int| 0 <= i < next.len() implies identity_of(
            #[trigger] next[i],
            variables,
            fs,
        ) == Ok::<Option<Seq<char>>, ErrorView>(ids[i]) by {
            assert(identity_of(links[i], variables, fs) == Ok::<Option<Seq<char>>, ErrorView>(
                ids[i],
            ));
        }
        lemma_identities_build(next, ids, variables, fs);
    } else {
        let more = ids.push(Some(site.canonical));
        lemma_identities_build(next, more, variables, fs);
    }
}

/// A batch leaves the destinations of the links distinct.
pub proof fn lemma_batch_distinct(
    ctx: ContextView,
    fs: Map<Seq<char>, FactsView>,
    directory: Seq<char>,
    start: BatchView,
    items: Seq<Seq<char>>,
)
    requires
        destinations_distinct(start.links, variables_of(ctx), fs),
        batch_fold(ctx, fs, directory, start, items) is Ok,
    ensures
        destinations_distinct(
            batch_fold(ctx, fs, directory, start, items)->Ok_0.links,
            variables_of(ctx),
            fs,
        ),
    decreases items.len(),
{
    if items.len() > 0 {
        lemma_batch_distinct(ctx, fs, directory, start, items.drop_last());
        let state = batch_fold(ctx, fs, directory, start, items.drop_last())->Ok_0;
        let raw = items.last();
        let site = located(ctx, fs, raw)->Ok_0;
        let name = crate::path::file_name_of(site.canonical)->0;
        let dest = directory + seq!['/'] + name;
        law_place_keeps_destinations_distinct(state.links, variables_of(ctx), fs, ctx.system, site, dest, name);
    }
}

/// Whatever `add` is given: where no two links of the project have the
/// same real file behind their destination, no two links of the project
/// that it hands back have.
pub proof fn law_add_keeps_destinations_distinct(
    ctx: ContextView,
    fs: Map<Seq<char>, FactsView>,
    locations: Seq<Seq<char>>,
    destination: Option<Seq<char>>,
    name: Option<Seq<char>>,
)
    requires
        destinations_distinct(ctx.project.links, variables_of(ctx), fs),
        add_spec(ctx, fs, locations, destination, name) is Ok,
    ensures
        destinations_distinct(
            add_spec(ctx, fs, locations, destination, name)->Ok_0.config.links,
            variables_of(ctx),
            fs,
        ),
{
    let links = ctx.project.links;
    let vars = variables_of(ctx);
    if locations.len() == 1 {
        let raw = locations[0];
        let site = located(ctx, fs, raw)->Ok_0;
        let dest = destination_for(ctx, fs, destination, site.canonical)->Ok_0;
        let link_name = name_for(name, site.canonical)->Ok_0;
        law_place_keeps_destinations_distinct(links, vars, fs, ctx.system, site, dest, link_name);
    } else {
        let start = BatchView { links, moves: Seq::empty() };
        lemma_batch_distinct(
            ctx,
            fs,
            batch_directory(destination),
            start,
            first_of_each(locations),
        );
    }
}

/// Whatever `add` is given for one file: the file is never the
/// destination of a link already, so the project gains exactly one link, at
/// the end, and loses none.
pub proof fn law_add_one_appends(
    ctx: ContextView,
    fs: Map<Seq<char>, FactsView>,
    raw: Seq<char>,
    destination: Option<Seq<char>>,
    name: Option<Seq<char>>,
)
    requires
        add_one(ctx, fs, raw, destination, name) is Ok,
    ensures
        ({
            let site = located(ctx, fs, raw)->Ok_0;
            let dest = destination_for(ctx, fs, destination, site.canonical)->Ok_0;
            let link_name = name_for(name, site.canonical)->Ok_0;
            add_one(ctx, fs, raw, destination, name)->Ok_0.config.links == ctx.project.links.push(
                new_link(link_name, site.location, dest),
            )
        }),
{
}

/// The links that still stand are links of the list, each with the real
/// file that was behind it, and no two of them share one where no two of
/// the list did.
pub proof fn lemma_standing_distinct(
    links: Seq<LinkView>,
    variables: Map<Seq<char>, Seq<char>>,
    fs: Map<Seq<char>, FactsView>,
)
    requires
        destinations_distinct(links, variables, fs),
        standing(links, variables, fs) is Ok,
    ensures
        destinations_distinct(standing(links, variables, fs)->Ok_0, variables, fs),
        forall|id: Option<Seq<char>>|
            identities_of(standing(links, variables, fs)->Ok_0, variables, fs)->Ok_0.contains(id)
                ==> #[trigger] identities_of(links, variables, fs)->Ok_0.contains(id),
    decreases links.len(),
{
    let ids = identities_of(links, variables, fs)->Ok_0;
    let kept = standing(links, variables, fs)->Ok_0;
    if links.len() != 0 {
        let init = links.drop_last();
        let init_ids = identities_of(init, variables, fs)->Ok_0;
        let last_id = identity_of(links.last(), variables, fs)->Ok_0;
        assert(ids == init_ids.push(last_id));
        assert forall|i: int, j: int|
            0 <= i < j < init_ids.len() && (#[trigger] init_ids[i]) is Some implies init_ids[i]
            != #[trigger] init_ids[j] by {
            assert(ids[i] == init_ids[i] && ids[j] == init_ids[j]);
        }
        lemma_standing_distinct(init, variables, fs);
        let init_kept = standing(init, variables, fs)->Ok_0;
        let kept_ids = identities_of(init_kept, variables, fs)->Ok_0;
        assert forall|id: Option<Seq<char>>| init_ids.contains(id) implies ids.contains(id) by {
            let m = choose|m: int| 0 <= m < init_ids.len() && init_ids[m] == id;
            assert(ids[m] == id);
        }
        if stands(links.last(), variables, fs) == Ok::<bool, ErrorView>(true) {
            assert(kept.drop_last() =~= init_kept);
            let more = kept_ids.push(last_id);
            assert(identities_of(kept, variables, fs) == Ok::<
                Seq<Option<Seq<char>>>,
                ErrorView,
            >(more));
            assert forall|i: int, j: int|
                0 <= i < j < more.len() && (#[trigger] more[i]) is Some implies more[i]
                != #[trigger] more[j] by {
                if j >= kept_ids.len() {
                    assert(init_ids.contains(kept_ids[i]));
                    let m = choose|m: int| 0 <= m < init_ids.len() && init_ids[m] == kept_ids[i];
                    assert(ids[m] == init_ids[m]);
                    assert(ids[ids.len() - 1] == last_id);
                }
            }
        }
    }
}

/// Whatever `prune` is given: where no two links of the project have the
/// same real file behind their destination, no two links of the project
/// that it hands back have.
pub proof fn law_prune_keeps_destinations_distinct(ctx: ContextView, fs: Map<Seq<char>, FactsView>)
    requires
        destinations_distinct(ctx.project.links, variables_of(ctx), fs),
        pruned(ctx, fs) is Ok,
    ensures
        destinations_distinct(pruned(ctx, fs)->Ok_0.links, variables_of(ctx), fs),
{
    lemma_standing_distinct(ctx.project.links, variables_of(ctx), fs);
}

/// Whatever `revert` is given: where no two links of the project have the
/// same real file behind their destination, no two links of the project
/// that it hands back have.
pub proof fn law_revert_keeps_destinations_distinct(
    ctx: ContextView,
    fs: Map<Seq<char>, FactsView>,
    file: Seq<char>,
)
    requires
        destinations_distinct(ctx.project.links, variables_of(ctx), fs),
        reverted(ctx, fs, file) is Ok,
    ensures
        destinations_distinct(reverted(ctx, fs, file)->Ok_0.config.links, variables_of(ctx), fs),
{
    let links = ctx.project.links;
    let vars = variables_of(ctx);
    let ids = identities_of(links, vars, fs)->Ok_0;
    let site = located(ctx, fs, file)->Ok_0;
    let at = first_hit(ids, site.canonical);
    lemma_first_hit(ids, site.canonical);
    lemma_identities_each(links, vars, fs);
    lemma_identities_remove(links, vars, fs, at);
}

/// Whatever `place_link` is given: where no two links bear the same name,
/// no two of the links that come out do.
pub proof fn law_place_keeps_names_distinct(
    links: Seq<LinkView>,
    variables: Map<Seq<char>, Seq<char>>,
    fs: Map<Seq<char>, FactsView>,
    system: Option<Seq<char>>,
    site: LocatedView,
    dest: Seq<char>,
    name: Seq<char>,
)
    requires
        names_distinct(links),
        admitted(links, variables, fs, system, site, dest, name) is Ok,
    ensures
        names_distinct(admitted(links, variables, fs, system, site, dest, name)->Ok_0),
{
}

/// A batch leaves the names of the links distinct.
pub proof fn lemma_batch_names(
    ctx: ContextView,
    fs: Map<Seq<char>, FactsView>,
    directory: Seq<char>,
    start: BatchView,
    items: Seq<Seq<char>>,
)
    requires
        names_distinct(start.links),
        batch_fold(ctx, fs, directory, start, items) is Ok,
    ensures
        names_distinct(batch_fold(ctx, fs, directory, start, items)->Ok_0.links),
    decreases items.len(),
{
    if items.len() > 0 {
        lemma_batch_names(ctx, fs, directory, start, items.drop_last());
    }
}

/// Whatever `add` is given: where no two links of the project bear the
/// same name, no two links of the project that it hands back do.
pub proof fn law_add_keeps_names_distinct(
    ctx: ContextView,
    fs: Map<Seq<char>, FactsView>,
    locations: Seq<Seq<char>>,
    destination: Option<Seq<char>>,
    name: Option<Seq<char>>,
)
    requires
        names_distinct(ctx.project.links),
        add_spec(ctx, fs, locations, destination, name) is Ok,
    ensures
        names_distinct(add_spec(ctx, fs, locations, destination, name)->Ok_0.config.links),
{
    let links = ctx.project.links;
    if locations.len() != 1 {
        lemma_batch_names(
            ctx,
            fs,
            batch_directory(destination),
            BatchView { links, moves: Seq::empty() },
            first_of_each(locations),
        );
    }
}

/// Every link that still stands is a link of the list.
pub proof fn lemma_standing_within(
    links: Seq<LinkView>,
    variables: Map<Seq<char>, Seq<char>>,
    fs: Map<Seq<char>, FactsView>,
)
    requires
        standing(links, variables, fs) is Ok,
    ensures
        forall|k: int|
            0 <= k < standing(links, variables, fs)->Ok_0.len() ==> links.contains(
                #[trigger] standing(links, variables, fs)->Ok_0[k],
            ),
        names_distinct(links) ==> names_distinct(standing(links, variables, fs)->Ok_0),
    decreases links.len(),
{
    if links.len() > 0 {
        let init = links.drop_last();
        lemma_standing_within(init, variables, fs);
    }
}

/// Where pruning succeeds, the links it keeps are exactly those at whose
/// destination something stands, in their order.
pub proof fn law_prune_keeps_what_stands(
    links: Seq<LinkView>,
    variables: Map<Seq<char>, Seq<char>>,
    fs: Map<Seq<char>, FactsView>,
)
    requires
        standing(links, variables, fs) is Ok,
    ensures
        standing(links, variables, fs)->Ok_0 == links.filter(
            |link: LinkView| stands(link, variables, fs) == Ok::<bool, ErrorView>(true),
        ),
    decreases links.len(),
{
    reveal(Seq::filter);
    if links.len() > 0 {
        law_prune_keeps_what_stands(links.drop_last(), variables, fs);
    }
}

/// Whatever `prune` is given: where no two links of the project bear the
/// same name, no two links of the project that it hands back do; and it
/// hands back no link that the project did not have.
pub proof fn law_prune_keeps_names_distinct(ctx: ContextView, fs: Map<Seq<char>, FactsView>)
    requires
        pruned(ctx, fs) is Ok,
    ensures
        names_distinct(ctx.project.links) ==> names_distinct(pruned(ctx, fs)->Ok_0.links),
        forall|k: int|
            0 <= k < pruned(ctx, fs)->Ok_0.links.len() ==> ctx.project.links.contains(
                #[trigger] pruned(ctx, fs)->Ok_0.links[k],
            ),
{
    lemma_standing_within(ctx.project.links, variables_of(ctx), fs);
}

/// Whatever `revert` is given: where no two links of the project bear the
/// same name, no two links of the project that it hands back do.
pub proof fn law_revert_keeps_names_distinct(
    ctx: ContextView,
    fs: Map<Seq<char>, FactsView>,
    file: Seq<char>,
)
    requires
        names_distinct(ctx.project.links),
        reverted(ctx, fs, file) is Ok,
    ensures
        names_distinct(reverted(ctx, fs, file)->Ok_0.config.links),
{
    let links = ctx.project.links;
    let ids = identities_of(links, variables_of(ctx), fs)->Ok_0;
    let site = located(ctx, fs, file)->Ok_0;
    lemma_first_hit(ids, site.canonical);
}

/// Whether none of `links` has its destination at `place`.
pub open spec fn clear_of(
    links: Seq<LinkView>,
    variables: Map<Seq<char>, Seq<char>>,
    place: Seq<char>,
) -> bool {
    forall|i: int|
        0 <= i < links.len() ==> resolved((#[trigger] links[i]).destination, variables) != Ok::<
            Seq<char>,
            ErrorView,
        >(place)
}

/// Whatever `add` is given for one file: where no two links of the project
/// have the same real file behind their destination, none have once the
/// plan is carried out. The snapshot that the plan leaves is the one given
/// with the file moved to its managed place. Before, nothing led to that
/// place, and no link had its destination there.
pub proof fn law_add_leaves_destinations_distinct(
    ctx: ContextView,
    fs: Map<Seq<char>, FactsView>,
    raw: Seq<char>,
    destination: Option<Seq<char>>,
    name: Option<Seq<char>>,
)
    requires
        destinations_distinct(ctx.project.links, variables_of(ctx), fs),
        add_one(ctx, fs, raw, destination, name) is Ok,
        ({
            let site = located(ctx, fs, raw)->Ok_0;
            let dest = destination_for(ctx, fs, destination, site.canonical)->Ok_0;
            let managed = joined(ctx.project_config_path, dest);
            led_to_by_none(fs, managed) && clear_of(ctx.project.links, variables_of(ctx), managed)
        }),
    ensures
        ({
            let site = located(ctx, fs, raw)->Ok_0;
            let dest = destination_for(ctx, fs, destination, site.canonical)->Ok_0;
            let managed = joined(ctx.project_config_path, dest);
            destinations_distinct(
                add_one(ctx, fs, raw, destination, name)->Ok_0.config.links,
                variables_of(ctx),
                after_move(fs, site.canonical, managed, site.is_dir),
            )
        }),
{
    let vars = variables_of(ctx);
    let links = ctx.project.links;
    let site = located(ctx, fs, raw)->Ok_0;
    let dest = destination_for(ctx, fs, destination, site.canonical)->Ok_0;
    let managed = joined(ctx.project_config_path, dest);
    let left = after_move(fs, site.canonical, managed, site.is_dir);
    let next = add_one(ctx, fs, raw, destination, name)->Ok_0.config.links;
    let ids = identities_of(links, vars, fs)->Ok_0;
    lemma_identities_each(links, vars, fs);
    let more = ids.push(Some(managed));
    lemma_identities_build(next, more, vars, left);
    assert forall|i: int, j: int|
        0 <= i < j < more.len() && (#[trigger] more[i]) is Some implies more[i]
        != #[trigger] more[j] by {
        if j >= ids.len() {
            let path = resolved(links[i].destination, vars)->Ok_0;
        }
    }
}

/// A move keeps the destinations of links apart, whatever the snapshot and
/// the links: where no two of `links` have the same real file behind their
/// destination, none have in the snapshot that the move leaves. Before,
/// nothing led to the place `managed`, and no link had its destination
/// there. So every step of a plan that moves several files keeps them
/// apart.
pub proof fn law_move_leaves_destinations_distinct(
    links: Seq<LinkView>,
    variables: Map<Seq<char>, Seq<char>>,
    fs: Map<Seq<char>, FactsView>,
    original: Seq<char>,
    managed: Seq<char>,
    is_dir: bool,
)
    requires
        destinations_distinct(links, variables, fs),
        led_to_by_none(fs, managed),
        clear_of(links, variables, managed),
    ensures
        destinations_distinct(links, variables, after_move(fs, original, managed, is_dir)),
{
    let left = after_move(fs, original, managed, is_dir);
    let ids = identities_of(links, variables, fs)->Ok_0;
    lemma_identities_each(links, variables, fs);
    let moved = Seq::new(
        ids.len(),
        |i: int|
            if ids[i] == Some(original) {
                Some(managed)
            } else {
                ids[i]
            },
    );
    assert forall|i: int| 0 <= i < links.len() implies identity_of(
        #[trigger] links[i],
        variables,
        left,
    ) == Ok::<Option<Seq<char>>, ErrorView>(moved[i]) by {
        assert(identity_of(links[i], variables, fs) == Ok::<Option<Seq<char>>, ErrorView>(ids[i]));
    }
    lemma_identities_build(links, moved, variables, left);
    assert forall|i: int, j: int|
        0 <= i < j < moved.len() && (#[trigger] moved[i]) is Some implies moved[i]
        != #[trigger] moved[j] by {
        assert(ids[i] is Some);
        assert(ids[i] != ids[j]);
        assert(identity_of(links[i], variables, fs) == Ok::<Option<Seq<char>>, ErrorView>(ids[i]));
        assert(identity_of(links[j], variables, fs) == Ok::<Option<Seq<char>>, ErrorView>(ids[j]));
        let one = resolved(links[i].destination, variables)->Ok_0;
        assert(fs.contains_key(one) && fs[one].canonical == ids[i]);
        if ids[j] is Some {
            let other = resolved(links[j].destination, variables)->Ok_0;
            assert(fs.contains_key(other) && fs[other].canonical == ids[j]);
        }
    }
}

/// Whatever `retarget` is given: where no two links of the project have
/// the same real file behind their destination, none have once the plan is
/// carried out. The snapshot that the plan leaves is the one given with
/// the file moved to its managed place. Before, nothing led to that place,
/// and no link had its destination there.
pub proof fn law_retarget_leaves_destinations_distinct(
    ctx: ContextView,
    fs: Map<Seq<char>, FactsView>,
    raw: Seq<char>,
    destination: Option<Seq<char>>,
)
    requires
        destinations_distinct(ctx.project.links, variables_of(ctx), fs),
        retargeted(ctx, fs, raw, destination) is Ok,
        ({
            let site = located(ctx, fs, raw)->Ok_0;
            let dest = destination_for(ctx, fs, destination, site.canonical)->Ok_0;
            let managed = joined(ctx.project_config_path, dest);
            led_to_by_none(fs, managed) && clear_of(ctx.project.links, variables_of(ctx), managed)
        }),
    ensures
        ({
            let site = located(ctx, fs, raw)->Ok_0;
            let dest = destination_for(ctx, fs, destination, site.canonical)->Ok_0;
            let managed = joined(ctx.project_config_path, dest);
            destinations_distinct(
                retargeted(ctx, fs, raw, destination)->Ok_0.config.links,
                variables_of(ctx),
                after_move(fs, site.canonical, managed, site.is_dir),
            )
        }),
{
    let vars = variables_of(ctx);
    let links = ctx.project.links;
    let site = located(ctx, fs, raw)->Ok_0;
    let dest = destination_for(ctx, fs, destination, site.canonical)->Ok_0;
    let managed = joined(ctx.project_config_path, dest);
    let next = retargeted(ctx, fs, raw, destination)->Ok_0.config.links;
    law_retarget_keeps_links_apart(ctx, fs, raw, destination);
    assert forall|i: int| 0 <= i < next.len() implies resolved(
        (#[trigger] next[i]).destination,
        vars,
    ) != Ok::<Seq<char>, ErrorView>(managed) by {
        assert(next[i].destination == links[i].destination);
    }
    law_move_leaves_destinations_distinct(next, vars, fs, site.canonical, managed, site.is_dir);
}

/// Whatever `revert` is given: where no two links of the project have the
/// same real file behind their destination, none have once the plan is
/// carried out, whatever the real path of the restored file is. The
/// snapshot that the plan leaves is the one given with the managed copy
/// restored.
pub proof fn law_revert_leaves_destinations_distinct(
    ctx: ContextView,
    fs: Map<Seq<char>, FactsView>,
    file: Seq<char>,
    restored: Seq<char>,
)
    requires
        destinations_distinct(ctx.project.links, variables_of(ctx), fs),
        reverted(ctx, fs, file) is Ok,
    ensures
        ({
            let site = located(ctx, fs, file)->Ok_0;
            let ids = identities_of(ctx.project.links, variables_of(ctx), fs)->Ok_0;
            let link = ctx.project.links[first_hit(ids, site.canonical)];
            let managed = joined(ctx.project_config_path, source_for(link.source, ctx.system));
            destinations_distinct(
                reverted(ctx, fs, file)->Ok_0.config.links,
                variables_of(ctx),
                after_restore(fs, site.canonical, managed, restored),
            )
        }),
{
    let vars = variables_of(ctx);
    let links = ctx.project.links;
    let site = located(ctx, fs, file)->Ok_0;
    let ids = identities_of(links, vars, fs)->Ok_0;
    let at = first_hit(ids, site.canonical);
    let managed = joined(ctx.project_config_path, source_for(links[at].source, ctx.system));
    let left = after_restore(fs, site.canonical, managed, restored);
    lemma_first_hit(ids, site.canonical);
    lemma_identities_each(links, vars, fs);
    let rest = links.remove(at);
    let rest_ids = ids.remove(at);
    lemma_identities_build(rest, rest_ids, vars, left);
}

/// A plan of three actions is its actions, one after the other.
pub proof fn lemma_after_three(tree: Tree, sites: Sites, a: ActionView, b: ActionView, c: ActionView)
    ensures
        after_all(tree, sites, seq![a, b, c]) == after(
            after(after(tree, sites, a), sites, b),
            sites,
            c,
        ),
{
    let plan = seq![a, b, c];
    let none = Seq::<ActionView>::empty();
    assert(plan.drop_last() =~= seq![a, b]);
    assert(seq![a, b].drop_last() =~= seq![a]);
    assert(seq![a].drop_last() =~= none);
    assert(after_all(tree, sites, seq![a]) == after(after_all(tree, sites, none), sites, a));
    assert(after_all(tree, sites, seq![a, b]) == after(
        after_all(tree, sites, seq![a]),
        sites,
        b,
    ));
}

/// A plan with one more action in front begins with that action.
pub proof fn lemma_after_first(tree: Tree, sites: Sites, first: ActionView, rest: Seq<ActionView>)
    ensures
        after_all(tree, sites, seq![first] + rest) == after_all(
            after(tree, sites, first),
            sites,
            rest,
        ),
    decreases rest.len(),
{
    let plan = seq![first] + rest;
    if rest.len() == 0 {
        assert(after_all(tree, sites, plan) == after(
            after_all(tree, sites, plan.drop_last()),
            sites,
            plan.last(),
        ));
    } else {
        assert(plan.drop_last() =~= seq![first] + rest.drop_last());
        lemma_after_first(tree, sites, first, rest.drop_last());
    }
}

/// Moving what stands at `original` to `managed` leaves it at `managed`,
/// with a symbolic link to `managed` where it stood; and restoring it
/// through any path `written` that leads to where it stood leaves the tree
/// as it was. Nothing stood at `managed` before.
pub proof fn law_move_then_restore(
    tree: Tree,
    sites: Sites,
    original: Seq<char>,
    written: Seq<char>,
    managed: Seq<char>,
    moved_as_dir: bool,
    restored_as_dir: bool,
)
    requires
        sites(written) == sites(original),
        tree.contains_key(sites(original)),
        !tree.contains_key(sites(managed)),
    ensures
        after_all(
            after_all(tree, sites, move_steps(original, managed, moved_as_dir)),
            sites,
            restore_steps(written, managed, restored_as_dir),
        ) == tree,
        after_all(tree, sites, move_steps(original, managed, moved_as_dir)) == tree.insert(
            sites(managed),
            tree[sites(original)],
        ).insert(sites(original), Entry::LinkTo { target: managed }),
{
    let moving = move_steps(original, managed, moved_as_dir);
    let restoring = restore_steps(written, managed, restored_as_dir);
    lemma_after_three(tree, sites, moving[0], moving[1], moving[2]);
    let moved = after_all(tree, sites, moving);
    assert(moved =~= tree.insert(sites(managed), tree[sites(original)]).insert(
        sites(original),
        Entry::LinkTo { target: managed },
    ));
    lemma_after_three(moved, sites, restoring[0], restoring[1], restoring[2]);
}

/// Adding a file and then reverting it leaves the project and the file as
/// they were, by whatever path the file was named.
///
/// The file stands in the tree where the path that names it leads, which
/// is where its real path leads, and nothing stands where the managed copy
/// is to lie. Then the plan of `add` leaves the content at the managed
/// place and a symbolic link to it where the file stood. `later` is a
/// snapshot taken after the addition: in it `file` is found, it is the
/// real file behind the destination of the link that was added, of the
/// same kind as what was added, and no other link has that real file
/// behind its destination. Then `revert` accepts, the project it hands
/// back is the project from before the addition, and the two plans, one
/// after the other, leave the tree as it was.
pub proof fn law_add_then_revert(
    ctx: ContextView,
    fs: Map<Seq<char>, FactsView>,
    raw: Seq<char>,
    destination: Option<Seq<char>>,
    name: Option<Seq<char>>,
    later: Map<Seq<char>, FactsView>,
    file: Seq<char>,
    tree: Tree,
    sites: Sites,
)
    requires
        add_one(ctx, fs, raw, destination, name) is Ok,
        ({
            let site = located(ctx, fs, raw)->Ok_0;
            let written = resolved(site.location, variables_of(ctx))->Ok_0;
            let dest = destination_for(ctx, fs, destination, site.canonical)->Ok_0;
            let added = add_one(ctx, fs, raw, destination, name)->Ok_0;
            let then = ContextView { project: added.config, ..ctx };
            &&& sites(written) == sites(site.canonical)
            &&& tree.contains_key(sites(site.canonical))
            &&& !tree.contains_key(sites(joined(ctx.project_config_path, dest)))
            &&& located(then, later, file) is Ok
            &&& located(then, later, file)->Ok_0.is_dir == site.is_dir
            &&& destinations_distinct(added.config.links, variables_of(ctx), later)
            &&& identity_of(added.config.links.last(), variables_of(ctx), later) == Ok::<
                Option<Seq<char>>,
                ErrorView,
            >(Some(located(then, later, file)->Ok_0.canonical))
        }),
    ensures
        ({
            let site = located(ctx, fs, raw)->Ok_0;
            let dest = destination_for(ctx, fs, destination, site.canonical)->Ok_0;
            let managed = joined(ctx.project_config_path, dest);
            let added = add_one(ctx, fs, raw, destination, name)->Ok_0;
            let then = ContextView { project: added.config, ..ctx };
            let moved = after_all(tree, sites, added.plan);
            &&& moved.contains_key(sites(managed))
            &&& moved[sites(managed)] == tree[sites(site.canonical)]
            &&& moved[sites(site.canonical)] == (Entry::LinkTo { target: managed })
            &&& reverted(then, later, file) is Ok
            &&& reverted(then, later, file)->Ok_0.config == ctx.project
            &&& added.config.links.len() == ctx.project.links.len() + 1
            &&& after_all(moved, sites, reverted(then, later, file)->Ok_0.plan) == tree
        }),
{
    let root = ctx.project_config_path;
    let vars = variables_of(ctx);
    let site = located(ctx, fs, raw)->Ok_0;
    let written = resolved(site.location, vars)->Ok_0;
    let dest = destination_for(ctx, fs, destination, site.canonical)->Ok_0;
    let link_name = name_for(name, site.canonical)->Ok_0;
    let added = add_one(ctx, fs, raw, destination, name)->Ok_0;
    let then = ContextView { project: added.config, ..ctx };
    let target = joined(root, dest);
    let fresh = new_link(link_name, site.location, dest);
    let links = ctx.project.links;
    let grown = links.push(fresh);

    let found = located(then, later, file)->Ok_0;
    let ids = identities_of(grown, vars, later)->Ok_0;
    lemma_identities_each(grown, vars, later);
    lemma_first_hit(ids, found.canonical);
    let at = first_hit(ids, found.canonical);
    assert(grown.remove(at) =~= links);

    let directory = crate::path::parent_of(target)->0;
    let first = ActionView::CreateDirAll { path: directory };
    let moving = move_steps(site.canonical, target, site.is_dir);
    lemma_after_first(tree, sites, first, moving);
    law_move_then_restore(tree, sites, site.canonical, written, target, site.is_dir, found.is_dir);
}

/// A text in which no `$` stands resolves to itself, whatever the
/// variables.
pub proof fn law_plain_text_resolves_to_itself(t: Seq<char>, variables: Map<Seq<char>, Seq<char>>)
    requires
        !t.contains('$'),
    ensures
        expanded(t, variables) == Ok::<Seq<char>, Seq<char>>(t),
{
    lemma_plain_suffix(t, variables, 0);
    assert(t.subrange(0, t.len() as int) =~= t);
}

proof fn lemma_plain_suffix(t: Seq<char>, variables: Map<Seq<char>, Seq<char>>, i: int)
    requires
        !t.contains('$'),
        0 <= i <= t.len(),
    ensures
        expand_from(t, variables, i) == Ok::<Seq<char>, Seq<char>>(t.subrange(i, t.len() as int)),
    decreases t.len() - i,
{
    if i < t.len() {
        lemma_plain_suffix(t, variables, i + 1);
        assert(seq![t[i]] + t.subrange(i + 1, t.len() as int) =~= t.subrange(i, t.len() as int));
    } else {
        assert(t.subrange(i, t.len() as int) =~= Seq::<char>::empty());
    }
}

/// Every path lies within itself.
pub proof fn law_within_itself(p: Seq<char>)
    ensures
        within(p, p),
{
}

/// What lies within a path that lies within another lies within the
/// other.
pub proof fn law_within_chain(a: Seq<char>, b: Seq<char>, c: Seq<char>)
    requires
        within(a, b),
        within(b, c),
    ensures
        within(a, c),
{
}

/// A path as seen from a directory has no root, and joined with the
/// directory it names the parts that the path names: the rest is cut off
/// by whole parts, however many separators or single dots stand between
/// them.
pub proof fn law_relative_then_joined(base: Seq<char>, path: Seq<char>)
    requires
        base.len() > 0,
        relative_to(base, path) is Some,
    ensures
        !rooted(relative_to(base, path)->0),
        same_place(joined(base, relative_to(base, path)->0), path),
        parts(relative_to(base, path)->0) == parts(path).skip(parts(base).len() as int),
{
    let head = parts(base);
    let all = parts(path);
    let tail = all.skip(head.len() as int);
    let rest = chain(tail);
    lemma_parts(path);
    lemma_chain(tail);
    assert(head + tail =~= all);
    if base.last() == '/' {
        let short = base.drop_last();
        assert(short.push('/') =~= base);
        lemma_parts_joined(short, rest);
        assert(short + seq!['/'] + rest =~= base + rest);
    } else {
        lemma_parts_joined(base, rest);
    }
}

/// A path that has a name has a parent, and the parent joined with the
/// name names the parts that the path names.
pub proof fn law_parent_joined_with_name(p: Seq<char>)
    requires
        file_name_of(p) is Some,
    ensures
        parent_of(p) is Some,
        same_place(joined(parent_of(p)->0, file_name_of(p)->0), p),
{
    let all = parts(p);
    let init = all.drop_last();
    let name = all.last();
    let dir = spelled(rooted(p), init);
    lemma_parts(p);
    lemma_chain(init);
    lemma_chain(seq![name]);
    assert(init + seq![name] =~= all);
    if dir.len() > 0 {
        if dir.last() != '/' {
            lemma_parts_joined(dir, name);
        }
    }
}

/// Whether `e` asks for a path of which `fs` says something already.
pub open spec fn asks_again(fs: Map<Seq<char>, FactsView>, e: ErrorView) -> bool {
    e matches ErrorView::Unobserved { path } && fs.contains_key(path)
}

proof fn lemma_identities_ask(
    links: Seq<LinkView>,
    variables: Map<Seq<char>, Seq<char>>,
    fs: Map<Seq<char>, FactsView>,
)
    requires
        identities_of(links, variables, fs) is Err,
    ensures
        !asks_again(fs, identities_of(links, variables, fs)->Err_0),
    decreases links.len(),
{
    if links.len() > 0 && identities_of(links.drop_last(), variables, fs) is Err {
        lemma_identities_ask(links.drop_last(), variables, fs);
    }
}

proof fn lemma_batch_asks(
    ctx: ContextView,
    fs: Map<Seq<char>, FactsView>,
    directory: Seq<char>,
    start: BatchView,
    items: Seq<Seq<char>>,
)
    requires
        batch_fold(ctx, fs, directory, start, items) is Err,
    ensures
        !asks_again(fs, batch_fold(ctx, fs, directory, start, items)->Err_0),
    decreases items.len(),
{
    if items.len() > 0 {
        let before = batch_fold(ctx, fs, directory, start, items.drop_last());
        if before is Err {
            lemma_batch_asks(ctx, fs, directory, start, items.drop_last());
        } else {
            let links = before->Ok_0.links;
            if identities_of(links, variables_of(ctx), fs) is Err {
                lemma_identities_ask(links, variables_of(ctx), fs);
            }
        }
    }
}

/// Whatever `add` is given: a path that it asks for is one of which the
/// snapshot says nothing. So a caller that looks at each path asked for,
/// and asks again, is never asked for the same path twice.
pub proof fn law_add_asks_for_what_is_unobserved(
    ctx: ContextView,
    fs: Map<Seq<char>, FactsView>,
    locations: Seq<Seq<char>>,
    destination: Option<Seq<char>>,
    name: Option<Seq<char>>,
)
    requires
        add_spec(ctx, fs, locations, destination, name) is Err,
    ensures
        !asks_again(fs, add_spec(ctx, fs, locations, destination, name)->Err_0),
{
    let links = ctx.project.links;
    if identities_of(links, variables_of(ctx), fs) is Err {
        lemma_identities_ask(links, variables_of(ctx), fs);
    }
    if locations.len() > 1 {
        lemma_batch_asks(
            ctx,
            fs,
            batch_directory(destination),
            BatchView { links, moves: Seq::empty() },
            first_of_each(locations),
        );
    }
}

proof fn lemma_standing_asks(
    links: Seq<LinkView>,
    variables: Map<Seq<char>, Seq<char>>,
    fs: Map<Seq<char>, FactsView>,
)
    requires
        standing(links, variables, fs) is Err,
    ensures
        !asks_again(fs, standing(links, variables, fs)->Err_0),
    decreases links.len(),
{
    if links.len() > 0 && standing(links.drop_last(), variables, fs) is Err {
        lemma_standing_asks(links.drop_last(), variables, fs);
    }
}

/// Whatever `prune` is given: a path that it asks for is one of which the
/// snapshot says nothing.
pub proof fn law_prune_asks_for_what_is_unobserved(ctx: ContextView, fs: Map<Seq<char>, FactsView>)
    requires
        pruned(ctx, fs) is Err,
    ensures
        !asks_again(fs, pruned(ctx, fs)->Err_0),
{
    lemma_standing_asks(ctx.project.links, variables_of(ctx), fs);
}

/// Whatever `revert` is given: a path that it asks for is one of which the
/// snapshot says nothing.
pub proof fn law_revert_asks_for_what_is_unobserved(
    ctx: ContextView,
    fs: Map<Seq<char>, FactsView>,
    file: Seq<char>,
)
    requires
        reverted(ctx, fs, file) is Err,
    ensures
        !asks_again(fs, reverted(ctx, fs, file)->Err_0),
{
    if identities_of(ctx.project.links, variables_of(ctx), fs) is Err {
        lemma_identities_ask(ctx.project.links, variables_of(ctx), fs);
    }
}

proof fn lemma_sync_asks(ctx: ContextView, fs: Map<Seq<char>, FactsView>, links: Seq<LinkView>)
    requires
        sync_fold(ctx, fs, links) is Err,
    ensures
        !asks_again(fs, sync_fold(ctx, fs, links)->Err_0),
    decreases links.len(),
{
    if links.len() > 0 && sync_fold(ctx, fs, links.drop_last()) is Err {
        lemma_sync_asks(ctx, fs, links.drop_last());
    }
}

/// Whatever `sync` is given: a path that it asks for is one of which the
/// snapshot says nothing.
pub proof fn law_sync_asks_for_what_is_unobserved(ctx: ContextView, fs: Map<Seq<char>, FactsView>)
    requires
        synced(ctx, fs) is Err,
    ensures
        !asks_again(fs, synced(ctx, fs)->Err_0),
{
    lemma_sync_asks(ctx, fs, ctx.project.links);
}

/// Whatever is asked where the documents lie: a path that is asked for is
/// one of which the snapshot says nothing.
pub proof fn law_documents_ask_for_what_is_unobserved(
    config_path: Option<Seq<char>>,
    current_dir: Seq<char>,
    usual: Option<Seq<char>>,
    fs: Map<Seq<char>, FactsView>,
)
    ensures
        project_document(config_path, current_dir, fs) is Err ==> !asks_again(
            fs,
            project_document(config_path, current_dir, fs)->Err_0,
        ),
        machine_document(config_path, usual, fs) is Err ==> !asks_again(
            fs,
            machine_document(config_path, usual, fs)->Err_0,
        ),
{
}

/// Whatever `retarget` is given: it adds no link and drops none, and where
/// no two links of the project have the same real file behind their
/// destination, or bear the same name, none have or do in the project that
/// it hands back. A path that it asks for is one of which the snapshot says
/// nothing.
pub proof fn law_retarget_keeps_links_apart(
    ctx: ContextView,
    fs: Map<Seq<char>, FactsView>,
    raw: Seq<char>,
    destination: Option<Seq<char>>,
)
    ensures
        retargeted(ctx, fs, raw, destination) is Ok ==> {
            let next = retargeted(ctx, fs, raw, destination)->Ok_0.config.links;
            &&& next.len() == ctx.project.links.len()
            &&& destinations_distinct(ctx.project.links, variables_of(ctx), fs)
                ==> destinations_distinct(next, variables_of(ctx), fs)
            &&& names_distinct(ctx.project.links) ==> names_distinct(next)
        },
        retargeted(ctx, fs, raw, destination) is Err ==> !asks_again(
            fs,
            retargeted(ctx, fs, raw, destination)->Err_0,
        ),
{
    let links = ctx.project.links;
    let vars = variables_of(ctx);
    if identities_of(links, vars, fs) is Err {
        lemma_identities_ask(links, vars, fs);
    }
    if retargeted(ctx, fs, raw, destination) is Ok {
        let site = located(ctx, fs, raw)->Ok_0;
        let dest = destination_for(ctx, fs, destination, site.canonical)->Ok_0;
        if destinations_distinct(links, vars, fs) {
            law_place_keeps_destinations_distinct(
                links,
                vars,
                fs,
                ctx.system,
                site,
                dest,
                site.location,
            );
        }
    }
}

/// The name of a link that `prune` drops is free again: where no two links
/// of the project bear the same name, none of the links that `prune` hands
/// back bears the name of a link at whose destination nothing stands. So
/// an addition under that name is not refused for the name.
pub proof fn law_pruned_name_is_free(ctx: ContextView, fs: Map<Seq<char>, FactsView>, at: int)
    requires
        pruned(ctx, fs) is Ok,
        names_distinct(ctx.project.links),
        0 <= at < ctx.project.links.len(),
        stands(ctx.project.links[at], variables_of(ctx), fs) == Ok::<bool, ErrorView>(false),
    ensures
        !taken(pruned(ctx, fs)->Ok_0.links, ctx.project.links[at].name),
{
    let links = ctx.project.links;
    let vars = variables_of(ctx);
    lemma_standing_stand(links, vars, fs);
}

/// Every link that still stands is a link of the list at whose destination
/// something stands.
pub proof fn lemma_standing_stand(
    links: Seq<LinkView>,
    variables: Map<Seq<char>, Seq<char>>,
    fs: Map<Seq<char>, FactsView>,
)
    requires
        standing(links, variables, fs) is Ok,
    ensures
        forall|k: int|
            0 <= k < standing(links, variables, fs)->Ok_0.len() ==> exists|m: int|
                0 <= m < links.len() && links[m] == #[trigger] standing(
                    links,
                    variables,
                    fs,
                )->Ok_0[k] && stands(links[m], variables, fs) == Ok::<bool, ErrorView>(true),
    decreases links.len(),
{
    if links.len() > 0 {
        let init = links.drop_last();
        lemma_standing_stand(init, variables, fs);
    }
}

/// One file of a batch either gives the links that stand at it a managed
/// copy for the active system, and adds no link, or adds one link at the
/// end, under the file's name, and changes no other.
pub proof fn law_batch_item_links(
    ctx: ContextView,
    fs: Map<Seq<char>, FactsView>,
    directory: Seq<char>,
    links: Seq<LinkView>,
    raw: Seq<char>,
)
    requires
        batch_item(ctx, fs, directory, links, raw) is Ok,
    ensures
        ({
            let site = located(ctx, fs, raw)->Ok_0;
            let name = file_name_of(site.canonical)->0;
            let dest = directory + seq!['/'] + name;
            let ids = identities_of(links, variables_of(ctx), fs)->Ok_0;
            let next = batch_item(ctx, fs, directory, links, raw)->Ok_0.links;
            if ids.contains(Some(site.canonical)) {
                &&& ctx.system is Some
                &&& next.len() == links.len()
                &&& forall|i: int|
                    0 <= i < links.len() ==> #[trigger] next[i] == if ids[i] == Some(
                        site.canonical,
                    ) {
                        LinkView {
                            source: with_override(links[i].source, ctx.system->0, dest),
                            ..links[i]
                        }
                    } else {
                        links[i]
                    }
            } else {
                next == links.push(new_link(name, site.location, dest))
            }
        }),
{
}

/// The number of files of a batch that come as new links: those that were
/// not behind a link when their turn came.
pub open spec fn batch_news(
    ctx: ContextView,
    fs: Map<Seq<char>, FactsView>,
    directory: Seq<char>,
    start: BatchView,
    items: Seq<Seq<char>>,
) -> nat
    decreases items.len(),
{
    if items.len() == 0 {
        0
    } else {
        let before = batch_fold(ctx, fs, directory, start, items.drop_last());
        let earlier = batch_news(ctx, fs, directory, start, items.drop_last());
        match (before, located(ctx, fs, items.last())) {
            (Ok(state), Ok(site)) => match identities_of(state.links, variables_of(ctx), fs) {
                Ok(ids) => if ids.contains(Some(site.canonical)) {
                    earlier
                } else {
                    earlier + 1
                },
                Err(_) => earlier,
            },
            _ => earlier,
        }
    }
}

/// A batch adds as many links as it has files that were not behind a link
/// when their turn came, and drops none: a file behind a link adds none.
pub proof fn law_batch_counts(
    ctx: ContextView,
    fs: Map<Seq<char>, FactsView>,
    directory: Seq<char>,
    start: BatchView,
    items: Seq<Seq<char>>,
)
    requires
        batch_fold(ctx, fs, directory, start, items) is Ok,
    ensures
        batch_fold(ctx, fs, directory, start, items)->Ok_0.links.len() == start.links.len()
            + batch_news(ctx, fs, directory, start, items),
        batch_news(ctx, fs, directory, start, items) <= items.len(),
    decreases items.len(),
{
    if items.len() > 0 {
        law_batch_counts(ctx, fs, directory, start, items.drop_last());
    }
}

/// Re-targeting the links at a file twice for one system leaves them with
/// the second place for that system: every link at the file is served from
/// the second place for the system, and as before for every other system
/// and for none; no other link changes, and none is added.
pub proof fn law_retarget_again(
    links: Seq<LinkView>,
    ids: Seq<Option<Seq<char>>>,
    canonical: Seq<char>,
    system: Seq<char>,
    first: Seq<char>,
    second: Seq<char>,
    other: Seq<char>,
)
    requires
        ids.len() == links.len(),
    ensures
        ({
            let once = retargeted_links(links, ids, canonical, system, first);
            let twice = retargeted_links(once, ids, canonical, system, second);
            &&& twice.len() == links.len()
            &&& forall|i: int|
                0 <= i < links.len() ==> if ids[i] == Some(canonical) {
                    &&& source_for((#[trigger] twice[i]).source, Some(system)) == second
                    &&& other != system ==> source_for(twice[i].source, Some(other)) == source_for(
                        links[i].source,
                        Some(other),
                    )
                    &&& source_for(twice[i].source, None) == source_for(links[i].source, None)
                    &&& twice[i].name == links[i].name
                    &&& twice[i].destination == links[i].destination
                } else {
                    twice[i] == links[i]
                }
        }),
{
    let once = retargeted_links(links, ids, canonical, system, first);
    let twice = retargeted_links(once, ids, canonical, system, second);
    assert forall|i: int| 0 <= i < links.len() && ids[i] == Some(canonical) implies {
        &&& source_for((#[trigger] twice[i]).source, Some(system)) == second
        &&& other != system ==> source_for(twice[i].source, Some(other)) == source_for(
            links[i].source,
            Some(other),
        )
        &&& source_for(twice[i].source, None) == source_for(links[i].source, None)
    } by {
    }
}

} // verus!

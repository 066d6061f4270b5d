//! Putting files under management.

use itertools::Itertools;
use vstd::prelude::*;
use crate::actions::identity::{
    destinations_distinct, identities, identities_of, is_known, lemma_identities_each,
    Identities,
};
use crate::actions::locate::{
    derive_destination, destination_for, locate, located, variables_of, Located, LocatedView,
};
use crate::actions::outcome::{active_system, replace_links, with_links, Outcome, OutcomeView};
use crate::config::{ContextView, ProjectContext};
use crate::error::{outcome, ActionError, ErrorView};
use crate::name_map::NameMap;
use crate::path::{file_name, file_name_of, join, joined, parent, parent_of};
use crate::plan::{move_link, move_steps, plan_view, ActionView, FsAction};
use crate::snapshot::{observe, observed, FactsView, Snapshot};
use crate::source::{source_holds, with_override, SourceSelector, SourceView};
use crate::variable_path::bindings;
use crate::text::{borrowed, glue, text_of, texts_of, view_of};
use crate::link::{copy_links, link_views, Link, LinkView};

verus! {

/// Whether the place `dest`, seen from the directory `root`, is a managed
/// copy of one of `links` already, or lies under one.
pub open spec fn shadowed(links: Seq<LinkView>, root: Seq<char>, dest: Seq<char>) -> bool {
    exists|i: int| 0 <= i < links.len() && source_holds(#[trigger] links[i].source, root, dest)
}

/// No two of `links` bear the same name.
pub open spec fn names_distinct(links: Seq<LinkView>) -> bool {
    forall|i: int, j: int|
        0 <= i < j < links.len() ==> (#[trigger] links[i]).name != (#[trigger] links[j]).name
}

/// Whether one of `links` bears the name `name`.
pub open spec fn taken(links: Seq<LinkView>, name: Seq<char>) -> bool {
    exists|i: int| 0 <= i < links.len() && #[trigger] links[i].name == name
}

/// Whether the place `dest` is a managed copy of one of `links` already, or
/// lies under one.
pub fn is_shadowed(links: &Vec<Link>, root: &str, dest: &str) -> (yes: bool)
    ensures
        yes == shadowed(link_views(links@), root@, dest@),
{
    let mut i: usize = 0;
    while i < links.len()
        invariant
            i <= links.len(),
            forall|j: int|
                0 <= j < i ==> !source_holds(
                    (#[trigger] link_views(links@)[j]).source,
                    root@,
                    dest@,
                ),
        decreases links.len() - i,
    {
        if links[i].source.contains_path(root, dest) {
            assert(source_holds(link_views(links@)[i as int].source, root@, dest@));
            return true;
        }
        i += 1;
    }
    false
}

/// Whether one of `links` bears the name `name`.
pub fn is_taken(links: &Vec<Link>, name: &str) -> (yes: bool)
    ensures
        yes == taken(link_views(links@), name@),
{
    let mut i: usize = 0;
    while i < links.len()
        invariant
            i <= links.len(),
            forall|j: int| 0 <= j < i ==> (#[trigger] link_views(links@)[j]).name != name@,
        decreases links.len() - i,
    {
        if crate::text::same_text(links[i].name.as_str(), name) {
            assert(link_views(links@)[i as int].name == name@);
            return true;
        }
        i += 1;
    }
    false
}

/// What stands against managing the file `site` at the place `dest`: the
/// file is the destination of a link already; something exists at `dest` in
/// the project; or `dest` is a managed copy of another link, or lies under
/// one.
pub open spec fn conflicts(
    ctx: ContextView,
    fs: Map<Seq<char>, FactsView>,
    site: LocatedView,
    dest: Seq<char>,
) -> Result<(), ErrorView> {
    let root = ctx.project_config_path;
    match identities_of(ctx.project.links, variables_of(ctx), fs) {
        Err(e) => Err(e),
        Ok(ids) => match observed(fs, joined(root, dest)) {
            Err(e) => Err(e),
            Ok(facts) => if ids.contains(Some(site.canonical)) || facts.canonical is Some
                || shadowed(ctx.project.links, root, dest) {
                Err(ErrorView::DestinationAlreadyExists { path: site.location })
            } else {
                Ok(())
            },
        },
    }
}

/// Refuses a file that is managed already and a place that is taken.
pub fn check_conflicts(ctx: &ProjectContext, fs: &Snapshot, site: &Located, dest: &str) -> (out:
    Result<(), ActionError>)
    ensures
        outcome(out) == conflicts(ctx@, fs@, site@, dest@),
{
    let root = ctx.project_config_path.as_str();
    let ids = identities(&ctx.project.links, ctx.project.variables.as_ref(), fs)?;
    let target = join(root, dest);
    let facts = observe(fs, target.as_str())?;
    if is_known(&ids, site.canonical.as_str()) || facts.canonical.is_some() || is_shadowed(
        &ctx.project.links,
        root,
        dest,
    ) {
        Err(ActionError::DestinationAlreadyExists { path: site.location.raw.clone() })
    } else {
        Ok(())
    }
}

/// The link that a file gets when it comes under management: named `name`,
/// from the path `location` under which the file is known to the one
/// managed copy at `dest`.
pub open spec fn new_link(name: Seq<char>, location: Seq<char>, dest: Seq<char>) -> LinkView {
    LinkView { name, destination: location, source: SourceView::Single { path: dest } }
}

/// `links` after every link whose destination is the real file `canonical`
/// was given the managed copy `dest` for `system`.
pub open spec fn retargeted_links(
    links: Seq<LinkView>,
    ids: Seq<Option<Seq<char>>>,
    canonical: Seq<char>,
    system: Seq<char>,
    dest: Seq<char>,
) -> Seq<LinkView> {
    Seq::new(
        links.len(),
        |i: int|
            if ids[i] == Some(canonical) {
                LinkView { source: with_override(links[i].source, system, dest), ..links[i] }
            } else {
                links[i]
            },
    )
}

/// The links of a project after the file `site` was taken in at `dest`,
/// given the real files `ids` behind the destinations of `links`. A file
/// that is the destination of a link already gives that link a managed copy
/// of its own for the active system, which then has to be set. Any other
/// file becomes a new link at the end, under a name that no link bears yet.
pub open spec fn placed(
    links: Seq<LinkView>,
    ids: Seq<Option<Seq<char>>>,
    system: Option<Seq<char>>,
    site: LocatedView,
    dest: Seq<char>,
    name: Seq<char>,
) -> Result<Seq<LinkView>, ErrorView> {
    if ids.contains(Some(site.canonical)) {
        match system {
            None => Err(ErrorView::MissingSystem),
            Some(active) => Ok(retargeted_links(links, ids, site.canonical, active, dest)),
        }
    } else if taken(links, name) {
        Err(ErrorView::DuplicateLink { name })
    } else {
        Ok(links.push(new_link(name, site.location, dest)))
    }
}

/// `placed`, with the real files behind the destinations read from `fs`.
pub open spec fn admitted(
    links: Seq<LinkView>,
    variables: Map<Seq<char>, Seq<char>>,
    fs: Map<Seq<char>, FactsView>,
    system: Option<Seq<char>>,
    site: LocatedView,
    dest: Seq<char>,
    name: Seq<char>,
) -> Result<Seq<LinkView>, ErrorView> {
    match identities_of(links, variables, fs) {
        Err(e) => Err(e),
        Ok(ids) => placed(links, ids, system, site, dest, name),
    }
}

fn place_with(
    links: &Vec<Link>,
    ids: &Identities,
    system: Option<&str>,
    site: &Located,
    dest: &str,
    name: &str,
) -> (out: Result<Vec<Link>, ActionError>)
    requires
        ids@.len() == links@.len(),
    ensures
        match out {
            Ok(next) => placed(
                link_views(links@),
                ids@,
                view_of(system),
                site@,
                dest@,
                name@,
            ) == Ok::<Seq<LinkView>, ErrorView>(link_views(next@)),
            Err(e) => placed(
                link_views(links@),
                ids@,
                view_of(system),
                site@,
                dest@,
                name@,
            ) == Err::<Seq<LinkView>, ErrorView>(e@),
        },
{
    if is_known(ids, site.canonical.as_str()) {
        let active = match system {
            None => {
                return Err(ActionError::MissingSystem);
            },
            Some(active) => active,
        };
        let ghost goal = retargeted_links(link_views(links@), ids@, site@.canonical, active@, dest@);
        let mut next: Vec<Link> = Vec::new();
        let mut i: usize = 0;
        while i < links.len()
            invariant
                i <= links.len(),
                ids@.len() == links@.len(),
                goal == retargeted_links(link_views(links@), ids@, site@.canonical, active@, dest@),
                link_views(next@) == goal.take(i as int),
            decreases links.len() - i,
        {
            let link = &links[i];
            let hit = match &ids.of[i] {
                Some(id) => crate::text::same_text(id.as_str(), site.canonical.as_str()),
                None => false,
            };
            let ghost before = link_views(next@);
            let moved = if hit {
                Link {
                    name: link.name.clone(),
                    destination: link.destination.clone(),
                    source: link.source.insert_override(active, dest),
                }
            } else {
                link.clone()
            };
            next.push(moved);
            assert(link_views(next@) =~= before.push(moved@));
            i += 1;
        }
        assert(goal.take(i as int) =~= goal);
        Ok(next)
    } else if is_taken(links, name) {
        Err(ActionError::DuplicateLink { name: String::from_str(name) })
    } else {
        let mut next = copy_links(links);
        let ghost before = link_views(next@);
        let link = Link::new(
            String::from_str(name),
            site.location.clone(),
            SourceSelector::new_single(String::from_str(dest)),
        );
        next.push(link);
        assert(link_views(next@) =~= before.push(link@));
        Ok(next)
    }
}

/// Takes the file `site` into `links` at the place `dest`: as a managed
/// copy of its own for the active system where the file is the destination
/// of a link already, as a new link named `name` where it is not.
pub fn place_link(
    links: &Vec<Link>,
    variables: Option<&NameMap<String>>,
    fs: &Snapshot,
    system: Option<&str>,
    site: &Located,
    dest: &str,
    name: &str,
) -> (out: Result<Vec<Link>, ActionError>)
    ensures
        match out {
            Ok(next) => admitted(
                link_views(links@),
                bindings(variables),
                fs@,
                view_of(system),
                site@,
                dest@,
                name@,
            ) == Ok::<Seq<LinkView>, ErrorView>(link_views(next@)),
            Err(e) => admitted(
                link_views(links@),
                bindings(variables),
                fs@,
                view_of(system),
                site@,
                dest@,
                name@,
            ) == Err::<Seq<LinkView>, ErrorView>(e@),
        },
{
    let ids = identities(links, variables, fs)?;
    proof {
        lemma_identities_each(link_views(links@), bindings(variables), fs@);
    }
    place_with(links, &ids, system, site, dest, name)
}

/// The name of the link for the file `canonical`: the one asked for, else
/// the file's own.
pub open spec fn name_for(explicit: Option<Seq<char>>, canonical: Seq<char>) -> Result<
    Seq<char>,
    ErrorView,
> {
    match explicit {
        Some(name) => Ok(name),
        None => match file_name_of(canonical) {
            Some(name) => Ok(name),
            None => Err(ErrorView::NoFileName { path: canonical }),
        },
    }
}

/// What adding the one file `raw` comes to. The file is found, the place
/// of its managed copy decided, and what stands against it looked for; then
/// the link is named and made, and the file is moved: the directory for the
/// copy is created, the file copied there and removed, and a symbolic link
/// to the copy left in its place.
pub open spec fn add_one(
    ctx: ContextView,
    fs: Map<Seq<char>, FactsView>,
    raw: Seq<char>,
    destination: Option<Seq<char>>,
    name: Option<Seq<char>>,
) -> Result<OutcomeView, ErrorView> {
    let root = ctx.project_config_path;
    let links = ctx.project.links;
    match located(ctx, fs, raw) {
        Err(e) => Err(e),
        Ok(site) => match destination_for(ctx, fs, destination, site.canonical) {
            Err(e) => Err(e),
            Ok(dest) => match conflicts(ctx, fs, site, dest) {
                Err(e) => Err(e),
                Ok(_) => match name_for(name, site.canonical) {
                    Err(e) => Err(e),
                    Ok(link_name) => match admitted(
                        links,
                        variables_of(ctx),
                        fs,
                        ctx.system,
                        site,
                        dest,
                        link_name,
                    ) {
                        Err(e) => Err(e),
                        Ok(next) => match parent_of(joined(root, dest)) {
                            None => Err(ErrorView::NoParent { path: joined(root, dest) }),
                            Some(directory) => Ok(
                                OutcomeView {
                                    config: with_links(ctx, next),
                                    plan: seq![ActionView::CreateDirAll { path: directory }]
                                        + move_steps(
                                        site.canonical,
                                        joined(root, dest),
                                        site.is_dir,
                                    ),
                                },
                            ),
                        },
                    },
                },
            },
        },
    }
}

/// Adds the one file `original_location` to the project.
pub fn add_individual_link(
    ctx: &ProjectContext,
    fs: &Snapshot,
    original_location: String,
    destination: Option<String>,
    name: Option<String>,
) -> (out: Result<Outcome, ActionError>)
    ensures
        outcome(out) == add_one(
            ctx@,
            fs@,
            original_location@,
            text_of(destination),
            text_of(name),
        ),
        out is Ok && destinations_distinct(ctx@.project.links, variables_of(ctx@), fs@)
            ==> destinations_distinct(out->Ok_0@.config.links, variables_of(ctx@), fs@),
{
    proof {
        if add_one(ctx@, fs@, original_location@, text_of(destination), text_of(name)) is Ok
            && destinations_distinct(ctx@.project.links, variables_of(ctx@), fs@) {
            crate::laws::law_add_keeps_destinations_distinct(
                ctx@,
                fs@,
                seq![original_location@],
                text_of(destination),
                text_of(name),
            );
        }
    }
    let root = ctx.project_config_path.as_str();
    let site = locate(ctx, fs, original_location.as_str())?;
    let dest = derive_destination(ctx, fs, borrowed(&destination), site.canonical.as_str())?;
    check_conflicts(ctx, fs, &site, dest.as_str())?;
    let link_name = match name {
        Some(name) => name,
        None => match file_name(site.canonical.as_str()) {
            Some(name) => name,
            None => {
                return Err(ActionError::NoFileName { path: site.canonical });
            },
        },
    };
    let next = place_link(
        &ctx.project.links,
        ctx.project.variables.as_ref(),
        fs,
        active_system(ctx),
        &site,
        dest.as_str(),
        link_name.as_str(),
    )?;
    let target = join(root, dest.as_str());
    let directory = match parent(target.as_str()) {
        Some(directory) => directory,
        None => {
            return Err(ActionError::NoParent { path: target });
        },
    };
    let mut plan: Vec<FsAction> = Vec::new();
    plan.push(FsAction::CreateDirAll { path: directory });
    let mut steps = move_link(site.canonical.as_str(), target.as_str(), site.is_dir);
    let ghost head = plan_view(plan@);
    let ghost tail = plan_view(steps@);
    plan.append(&mut steps);
    assert(plan_view(plan@) =~= head + tail);
    assert(head =~= seq![ActionView::CreateDirAll { path: directory@ }]);
    Ok(Outcome { config: replace_links(ctx, next), plan })
}

/// `texts` with every run of equal neighbours cut down to its first.
pub open spec fn dedup_runs(texts: Seq<Seq<char>>) -> Seq<Seq<char>>
    decreases texts.len(),
{
    if texts.len() <= 1 {
        texts
    } else if texts[texts.len() - 2] == texts.last() {
        dedup_runs(texts.drop_last())
    } else {
        dedup_runs(texts.drop_last()).push(texts.last())
    }
}

/// Calls `itertools::Itertools::dedup` on the locations and collects what
/// it yields. The contract says what the adaptor is documented to do: of
/// every run of equal neighbours the first is kept, in the order given.
#[verifier::external_body]
fn dedup_locations(locations: Vec<String>) -> (out: Vec<String>)
    ensures
        texts_of(out@) == dedup_runs(texts_of(locations@)),
{
    locations.into_iter().dedup().collect()
}

/// `texts` without the repeats: of texts that occur more than once the
/// first stays where it is, and the later ones are left out.
pub open spec fn first_of_each(texts: Seq<Seq<char>>) -> Seq<Seq<char>>
    decreases texts.len(),
{
    if texts.len() == 0 {
        texts
    } else if texts.drop_last().contains(texts.last()) {
        first_of_each(texts.drop_last())
    } else {
        first_of_each(texts.drop_last()).push(texts.last())
    }
}

/// `first_of_each` holds the texts that `texts` holds.
pub proof fn lemma_first_of_each_holds(texts: Seq<Seq<char>>, text: Seq<char>)
    ensures
        first_of_each(texts).contains(text) == texts.contains(text),
    decreases texts.len(),
{
    if texts.len() > 0 {
        let init = texts.drop_last();
        lemma_first_of_each_holds(init, text);
        if texts.contains(text) {
            let i = choose|i: int| 0 <= i < texts.len() && texts[i] == text;
            if i < init.len() {
                assert(init[i] == text);
            }
        }
        let kept = first_of_each(init);
        if !init.contains(texts.last()) {
            let more = kept.push(texts.last());
            if kept.contains(text) {
                let i = choose|i: int| 0 <= i < kept.len() && kept[i] == text;
                assert(more[i] == text);
            }
            if text == texts.last() {
                assert(more[kept.len() as int] == text);
            }
        }
    }
}

/// `dedup_runs` holds the texts that `texts` holds.
pub proof fn lemma_dedup_runs_holds(texts: Seq<Seq<char>>, text: Seq<char>)
    ensures
        dedup_runs(texts).contains(text) == texts.contains(text),
    decreases texts.len(),
{
    if texts.len() > 1 {
        let init = texts.drop_last();
        lemma_dedup_runs_holds(init, text);
        if texts.contains(text) {
            let i = choose|i: int| 0 <= i < texts.len() && texts[i] == text;
            if i < init.len() {
                assert(init[i] == text);
            } else {
                if texts[texts.len() - 2] == texts.last() {
                    assert(init[init.len() - 1] == text);
                }
            }
        }
        let kept = dedup_runs(init);
        if texts[texts.len() - 2] != texts.last() {
            let more = kept.push(texts.last());
            if kept.contains(text) {
                let i = choose|i: int| 0 <= i < kept.len() && kept[i] == text;
                assert(more[i] == text);
            }
            if text == texts.last() {
                assert(more[kept.len() as int] == text);
            }
        }
    }
}

/// Leaving out the repeats of a list in which equal neighbours were cut
/// down already gives what leaving out the repeats of the list gives.
pub proof fn lemma_runs_then_repeats(texts: Seq<Seq<char>>)
    ensures
        first_of_each(dedup_runs(texts)) == first_of_each(texts),
    decreases texts.len(),
{
    if texts.len() > 1 {
        let init = texts.drop_last();
        lemma_runs_then_repeats(init);
        lemma_dedup_runs_holds(init, texts.last());
        if texts[texts.len() - 2] != texts.last() {
            assert(dedup_runs(init).push(texts.last()).drop_last() =~= dedup_runs(init));
        }
    }
}

/// Whether `text` is among `texts`.
fn is_among(texts: &Vec<String>, text: &str) -> (yes: bool)
    ensures
        yes == texts_of(texts@).contains(text@),
{
    let mut i: usize = 0;
    while i < texts.len()
        invariant
            i <= texts.len(),
            forall|j: int| 0 <= j < i ==> texts_of(texts@)[j] != text@,
        decreases texts.len() - i,
    {
        if crate::text::same_text(texts[i].as_str(), text) {
            assert(texts_of(texts@)[i as int] == text@);
            return true;
        }
        i += 1;
    }
    false
}

/// `texts` without the repeats, the first of each kept.
pub fn drop_repeats(texts: Vec<String>) -> (out: Vec<String>)
    ensures
        texts_of(out@) == first_of_each(texts_of(texts@)),
{
    let ghost all = texts_of(texts@);
    let mut out: Vec<String> = Vec::new();
    let mut seen: Vec<String> = Vec::new();
    let mut i: usize = 0;
    while i < texts.len()
        invariant
            i <= texts.len(),
            all == texts_of(texts@),
            texts_of(seen@) == all.take(i as int),
            texts_of(out@) == first_of_each(all.take(i as int)),
        decreases texts.len() - i,
    {
        proof {
            assert(all.take(i + 1).drop_last() =~= all.take(i as int));
        }
        let text = texts[i].clone();
        if !is_among(&seen, text.as_str()) {
            out.push(text.clone());
        }
        seen.push(text);
        i += 1;
    }
    assert(all.take(i as int) =~= all);
    out
}

/// How far a batch has come: the links as they stand, and the moves that
/// were decided.
#[derive(Debug)]
pub struct Batch {
    pub links: Vec<Link>,
    pub moves: Vec<FsAction>,
}

/// A `Batch` as a value of mathematics.
pub struct BatchView {
    pub links: Seq<LinkView>,
    pub moves: Seq<ActionView>,
}

impl View for Batch {
    type V = BatchView;

    open spec fn view(&self) -> BatchView {
        BatchView { links: link_views(self.links@), moves: plan_view(self.moves@) }
    }
}

/// The directory, seen from the project's, that a batch puts its copies
/// in: the one asked for, else the project's own.
pub open spec fn batch_directory(destination: Option<Seq<char>>) -> Seq<char> {
    match destination {
        Some(asked) => asked,
        None => "."@,
    }
}

/// One file of a batch, added to `links`: the links after it, and its move.
/// The file is found; its managed copy goes into `directory` under the
/// file's own name, unless something exists there or the place is a managed
/// copy already, or lies under one; then the file is taken into the links
/// as `admitted` says, under its own name.
pub open spec fn batch_item(
    ctx: ContextView,
    fs: Map<Seq<char>, FactsView>,
    directory: Seq<char>,
    links: Seq<LinkView>,
    raw: Seq<char>,
) -> Result<BatchView, ErrorView> {
    let root = ctx.project_config_path;
    match located(ctx, fs, raw) {
        Err(e) => Err(e),
        Ok(site) => match file_name_of(site.canonical) {
            None => Err(ErrorView::NoFileName { path: site.canonical }),
            Some(name) => {
                let dest = directory + seq!['/'] + name;
                match observed(fs, joined(root, dest)) {
                    Err(e) => Err(e),
                    Ok(facts) => if facts.canonical is Some || shadowed(links, root, dest) {
                        Err(ErrorView::DestinationAlreadyExists { path: dest })
                    } else {
                        match admitted(links, variables_of(ctx), fs, ctx.system, site, dest, name) {
                            Err(e) => Err(e),
                            Ok(next) => Ok(
                                BatchView {
                                    links: next,
                                    moves: move_steps(
                                        site.canonical,
                                        joined(root, dest),
                                        site.is_dir,
                                    ),
                                },
                            ),
                        }
                    },
                }
            },
        },
    }
}

/// The files of a batch, one after the other, each added to the links that
/// the ones before it left, its move put behind theirs; the first that is
/// refused refuses the batch.
pub open spec fn batch_fold(
    ctx: ContextView,
    fs: Map<Seq<char>, FactsView>,
    directory: Seq<char>,
    start: BatchView,
    items: Seq<Seq<char>>,
) -> Result<BatchView, ErrorView>
    decreases items.len(),
{
    if items.len() == 0 {
        Ok(start)
    } else {
        match batch_fold(ctx, fs, directory, start, items.drop_last()) {
            Err(e) => Err(e),
            Ok(state) => match batch_item(ctx, fs, directory, state.links, items.last()) {
                Err(e) => Err(e),
                Ok(item) => Ok(BatchView { links: item.links, moves: state.moves + item.moves }),
            },
        }
    }
}

/// A batch that is refused at one of its first files is refused.
pub proof fn lemma_batch_fail(
    ctx: ContextView,
    fs: Map<Seq<char>, FactsView>,
    directory: Seq<char>,
    start: BatchView,
    items: Seq<Seq<char>>,
    k: int,
)
    requires
        0 <= k <= items.len(),
        batch_fold(ctx, fs, directory, start, items.take(k)) is Err,
    ensures
        batch_fold(ctx, fs, directory, start, items) == batch_fold(
            ctx,
            fs,
            directory,
            start,
            items.take(k),
        ),
    decreases items.len() - k,
{
    if k < items.len() {
        assert(items.take(k + 1).drop_last() =~= items.take(k));
        lemma_batch_fail(ctx, fs, directory, start, items, k + 1);
    } else {
        assert(items.take(k) =~= items);
    }
}

/// What adding several files at once comes to. A location that is named
/// more than once counts once, where it is named first. Every file is
/// decided before anything is moved:
/// the plan creates the directory for the copies and then makes the moves,
/// in the order of the files.
pub open spec fn add_many(
    ctx: ContextView,
    fs: Map<Seq<char>, FactsView>,
    locations: Seq<Seq<char>>,
    destination: Option<Seq<char>>,
) -> Result<OutcomeView, ErrorView> {
    let directory = batch_directory(destination);
    let start = BatchView { links: ctx.project.links, moves: Seq::empty() };
    match batch_fold(ctx, fs, directory, start, first_of_each(locations)) {
        Err(e) => Err(e),
        Ok(state) => Ok(
            OutcomeView {
                config: with_links(ctx, state.links),
                plan: seq![
                    ActionView::CreateDirAll { path: joined(ctx.project_config_path, directory) },
                ] + state.moves,
            },
        ),
    }
}

/// Adds the files `locations` to the project, their managed copies side
/// by side in one directory.
pub fn manage_list(
    ctx: &ProjectContext,
    fs: &Snapshot,
    locations: Vec<String>,
    destination: Option<String>,
) -> (out: Result<Outcome, ActionError>)
    ensures
        outcome(out) == add_many(ctx@, fs@, texts_of(locations@), text_of(destination)),
        out is Ok && destinations_distinct(ctx@.project.links, variables_of(ctx@), fs@)
            ==> destinations_distinct(out->Ok_0@.config.links, variables_of(ctx@), fs@),
{
    proof {
        if add_many(ctx@, fs@, texts_of(locations@), text_of(destination)) is Ok
            && destinations_distinct(ctx@.project.links, variables_of(ctx@), fs@) {
            crate::laws::lemma_batch_distinct(
                ctx@,
                fs@,
                batch_directory(text_of(destination)),
                BatchView { links: ctx@.project.links, moves: Seq::empty() },
                first_of_each(texts_of(locations@)),
            );
        }
    }
    let root = ctx.project_config_path.as_str();
    let ghost given = texts_of(locations@);
    let ghost wanted = text_of(destination);
    let directory = match destination {
        Some(asked) => asked,
        None => String::from_str("."),
    };
    let ghost start = BatchView { links: ctx@.project.links, moves: Seq::empty() };
    let items = drop_repeats(dedup_locations(locations));
    let ghost all = texts_of(items@);
    proof {
        lemma_runs_then_repeats(given);
    }
    let mut links = copy_links(&ctx.project.links);
    let mut plan: Vec<FsAction> = Vec::new();
    plan.push(FsAction::CreateDirAll { path: join(root, directory.as_str()) });
    let ghost head = plan_view(plan@);
    let ghost mut moves: Seq<ActionView> = Seq::empty();
    let mut i: usize = 0;
    while i < items.len()
        invariant
            i <= items.len(),
            all == texts_of(items@),
            all == first_of_each(given),
            given == texts_of(locations@),
            wanted == text_of(destination),
            directory@ == batch_directory(wanted),
            start == (BatchView { links: ctx@.project.links, moves: Seq::empty() }),
            root@ == ctx@.project_config_path,
            head == seq![ActionView::CreateDirAll { path: joined(root@, directory@) }],
            plan_view(plan@) == head + moves,
            batch_fold(ctx@, fs@, directory@, start, all.take(i as int)) == Ok::<
                BatchView,
                ErrorView,
            >(BatchView { links: link_views(links@), moves }),
        decreases items.len() - i,
    {
        proof {
            assert(all.take(i + 1).drop_last() =~= all.take(i as int));
        }
        match take_in(ctx, fs, directory.as_str(), &links, items[i].as_str()) {
            Err(e) => {
                proof {
                    lemma_batch_fail(ctx@, fs@, directory@, start, all, i + 1);
                }
                return Err(e);
            },
            Ok(item) => {
                let Batch { links: next, moves: mut steps } = item;
                let ghost tail = plan_view(steps@);
                let ghost before = plan_view(plan@);
                plan.append(&mut steps);
                proof {
                    assert(plan_view(plan@) =~= before + tail);
                    moves = moves + tail;
                }
                links = next;
            },
        }
        i += 1;
    }
    assert(all.take(i as int) =~= all);
    Ok(Outcome { config: replace_links(ctx, links), plan })
}

/// Decides one file of a batch: the links after it, and its move.
pub fn take_in(ctx: &ProjectContext, fs: &Snapshot, directory: &str, links: &Vec<Link>, raw: &str) -> (out:
    Result<Batch, ActionError>)
    ensures
        outcome(out) == batch_item(ctx@, fs@, directory@, link_views(links@), raw@),
{
    let root = ctx.project_config_path.as_str();
    let site = locate(ctx, fs, raw)?;
    let name = match file_name(site.canonical.as_str()) {
        Some(name) => name,
        None => {
            return Err(ActionError::NoFileName { path: site.canonical });
        },
    };
    let mut dest = glue(directory, "/");
    proof {
        reveal_strlit("/");
        assert("/"@ =~= seq!['/']);
    }
    dest.append(name.as_str());
    let target = join(root, dest.as_str());
    let facts = observe(fs, target.as_str())?;
    if facts.canonical.is_some() || is_shadowed(links, root, dest.as_str()) {
        return Err(ActionError::DestinationAlreadyExists { path: dest });
    }
    let next = place_link(
        links,
        ctx.project.variables.as_ref(),
        fs,
        active_system(ctx),
        &site,
        dest.as_str(),
        name.as_str(),
    )?;
    let steps = move_link(site.canonical.as_str(), target.as_str(), site.is_dir);
    Ok(Batch { links: next, moves: steps })
}

/// The files and the place that the words of a request name: of two words
/// or more the last is the place for the managed copies, and the others are
/// the files; a single word is a file, with no place asked for.
pub open spec fn request_of(words: Seq<Seq<char>>) -> (Seq<Seq<char>>, Option<Seq<char>>) {
    if words.len() >= 2 {
        (words.drop_last(), Some(words.last()))
    } else {
        (words, None)
    }
}

/// Tells the files of a request from the place asked for.
pub fn split_request(words: Vec<String>) -> (request: (Vec<String>, Option<String>))
    ensures
        (texts_of(request.0@), text_of(request.1)) == request_of(texts_of(words@)),
{
    let mut files = words;
    if files.len() >= 2 {
        let place = files.pop();
        (files, place)
    } else {
        (files, None)
    }
}

/// What `add` comes to: nothing can be added where no file is named; one
/// file is added by itself, under the name asked for; several are added as
/// a batch, each under its own name.
pub open spec fn add_spec(
    ctx: ContextView,
    fs: Map<Seq<char>, FactsView>,
    locations: Seq<Seq<char>>,
    destination: Option<Seq<char>>,
    name: Option<Seq<char>>,
) -> Result<OutcomeView, ErrorView> {
    if locations.len() == 0 {
        Err(ErrorView::NoFiles)
    } else if locations.len() == 1 {
        add_one(ctx, fs, locations[0], destination, name)
    } else {
        add_many(ctx, fs, locations, destination)
    }
}

/// Puts the files `original_locations` under management: each is to be
/// moved into the project and replaced by a symbolic link to its managed
/// copy. `destination` is the place of the copy, or the directory for the
/// copies; `name` is the name of the link where one file is added. With no
/// file named the answer is `NoFiles`. Whatever is refused is refused
/// before any change is asked of the file system.
pub fn add(
    ctx: &ProjectContext,
    fs: &Snapshot,
    original_locations: Vec<String>,
    destination: Option<String>,
    name: Option<String>,
) -> (out: Result<Outcome, ActionError>)
    ensures
        outcome(out) == add_spec(
            ctx@,
            fs@,
            texts_of(original_locations@),
            text_of(destination),
            text_of(name),
        ),
        original_locations@.len() == 0 ==> outcome(out) == Err::<OutcomeView, ErrorView>(
            ErrorView::NoFiles,
        ),
        out is Ok && destinations_distinct(ctx@.project.links, variables_of(ctx@), fs@)
            ==> destinations_distinct(out->Ok_0@.config.links, variables_of(ctx@), fs@),
        out is Ok && names_distinct(ctx@.project.links) ==> names_distinct(
            out->Ok_0@.config.links,
        ),
{
    proof {
        let spec_out = add_spec(
            ctx@,
            fs@,
            texts_of(original_locations@),
            text_of(destination),
            text_of(name),
        );
        if spec_out is Ok && destinations_distinct(ctx@.project.links, variables_of(ctx@), fs@) {
            crate::laws::law_add_keeps_destinations_distinct(
                ctx@,
                fs@,
                texts_of(original_locations@),
                text_of(destination),
                text_of(name),
            );
        }
        if spec_out is Ok && names_distinct(ctx@.project.links) {
            crate::laws::law_add_keeps_names_distinct(
                ctx@,
                fs@,
                texts_of(original_locations@),
                text_of(destination),
                text_of(name),
            );
        }
    }
    if original_locations.len() == 0 {
        return Err(ActionError::NoFiles);
    }
    if original_locations.len() == 1 {
        let only = original_locations[0].clone();
        add_individual_link(ctx, fs, only, destination, name)
    } else {
        manage_list(ctx, fs, original_locations, destination)
    }
}

} // verus!

//! The real files behind the destinations of links: what makes two links
//! the same, however their destinations are written.

use vstd::prelude::*;
use crate::error::{outcome, ActionError, ErrorView};
use crate::link::{link_views, Link, LinkView};
use crate::name_map::NameMap;
use crate::snapshot::{FactsView, Snapshot};
use crate::variable_path::{bindings, canonical_of};
use crate::text::text_of;

verus! {

/// The real file behind the destination of a link, as `fs` shows it:
/// `None` where the destination cannot be resolved or nothing exists there.
/// A destination that `fs` says nothing of is asked for.
pub open spec fn identity_of(
    link: LinkView,
    variables: Map<Seq<char>, Seq<char>>,
    fs: Map<Seq<char>, FactsView>,
) -> Result<Option<Seq<char>>, ErrorView> {
    match canonical_of(link.destination, variables, fs) {
        Ok(canonical) => Ok(Some(canonical)),
        Err(ErrorView::Unobserved { path }) => Err(ErrorView::Unobserved { path }),
        Err(_) => Ok(None),
    }
}

/// The real files behind the destinations of `links`, in order; the first
/// destination that `fs` says nothing of is asked for.
pub open spec fn identities_of(
    links: Seq<LinkView>,
    variables: Map<Seq<char>, Seq<char>>,
    fs: Map<Seq<char>, FactsView>,
) -> Result<Seq<Option<Seq<char>>>, ErrorView>
    decreases links.len(),
{
    if links.len() == 0 {
        Ok(Seq::empty())
    } else {
        match identities_of(links.drop_last(), variables, fs) {
            Err(e) => Err(e),
            Ok(ids) => match identity_of(links.last(), variables, fs) {
                Err(e) => Err(e),
                Ok(id) => Ok(ids.push(id)),
            },
        }
    }
}

/// No two of `ids` are the same real file.
pub open spec fn distinct(ids: Seq<Option<Seq<char>>>) -> bool {
    forall|i: int, j: int|
        0 <= i < j < ids.len() && (#[trigger] ids[i]) is Some ==> ids[i] != #[trigger] ids[j]
}

/// No two links of `links` have the same real file behind their
/// destination, as far as `fs` shows, and `fs` shows every destination
/// that can be resolved.
pub open spec fn destinations_distinct(
    links: Seq<LinkView>,
    variables: Map<Seq<char>, Seq<char>>,
    fs: Map<Seq<char>, FactsView>,
) -> bool {
    match identities_of(links, variables, fs) {
        Ok(ids) => distinct(ids),
        Err(_) => false,
    }
}

/// An error among the first links is the error of the whole list.
pub proof fn lemma_identities_fail(
    links: Seq<LinkView>,
    variables: Map<Seq<char>, Seq<char>>,
    fs: Map<Seq<char>, FactsView>,
    k: int,
)
    requires
        0 <= k <= links.len(),
        identities_of(links.take(k), variables, fs) is Err,
    ensures
        identities_of(links, variables, fs) == identities_of(links.take(k), variables, fs),
    decreases links.len() - k,
{
    if k < links.len() {
        assert(links.take(k + 1).drop_last() =~= links.take(k));
        lemma_identities_fail(links, variables, fs, k + 1);
    } else {
        assert(links.take(k) =~= links);
    }
}

/// The identities of a list speak of each link in its place.
pub proof fn lemma_identities_each(
    links: Seq<LinkView>,
    variables: Map<Seq<char>, Seq<char>>,
    fs: Map<Seq<char>, FactsView>,
)
    requires
        identities_of(links, variables, fs) is Ok,
    ensures
        identities_of(links, variables, fs)->Ok_0.len() == links.len(),
        forall|i: int|
            0 <= i < links.len() ==> identity_of(#[trigger] links[i], variables, fs) == Ok::<
                Option<Seq<char>>,
                ErrorView,
            >(identities_of(links, variables, fs)->Ok_0[i]),
    decreases links.len(),
{
    if links.len() > 0 {
        lemma_identities_each(links.drop_last(), variables, fs);
        let ids = identities_of(links, variables, fs)->Ok_0;
        assert forall|i: int| 0 <= i < links.len() implies identity_of(
            #[trigger] links[i],
            variables,
            fs,
        ) == Ok::<Option<Seq<char>>, ErrorView>(ids[i]) by {
            if i < links.len() - 1 {
                assert(links.drop_last()[i] == links[i]);
            }
        }
    }
}

/// Identities that fit each link in its place are the identities of the
/// list.
pub proof fn lemma_identities_build(
    links: Seq<LinkView>,
    ids: Seq<Option<Seq<char>>>,
    variables: Map<Seq<char>, Seq<char>>,
    fs: Map<Seq<char>, FactsView>,
)
    requires
        ids.len() == links.len(),
        forall|i: int|
            0 <= i < links.len() ==> identity_of(#[trigger] links[i], variables, fs) == Ok::<
                Option<Seq<char>>,
                ErrorView,
            >(ids[i]),
    ensures
        identities_of(links, variables, fs) == Ok::<Seq<Option<Seq<char>>>, ErrorView>(ids),
    decreases links.len(),
{
    if links.len() > 0 {
        lemma_identities_build(links.drop_last(), ids.drop_last(), variables, fs);
        assert(ids.drop_last().push(ids.last()) =~= ids);
    } else {
        assert(ids =~= Seq::<Option<Seq<char>>>::empty());
    }
}

/// A list without one of its links has the identities of the list without
/// the one of that link.
pub proof fn lemma_identities_remove(
    links: Seq<LinkView>,
    variables: Map<Seq<char>, Seq<char>>,
    fs: Map<Seq<char>, FactsView>,
    at: int,
)
    requires
        identities_of(links, variables, fs) is Ok,
        0 <= at < links.len(),
    ensures
        identities_of(links.remove(at), variables, fs) == Ok::<
            Seq<Option<Seq<char>>>,
            ErrorView,
        >(identities_of(links, variables, fs)->Ok_0.remove(at)),
{
    let ids = identities_of(links, variables, fs)->Ok_0;
    lemma_identities_each(links, variables, fs);
    let rest = links.remove(at);
    let rest_ids = ids.remove(at);
    lemma_identities_build(rest, rest_ids, variables, fs);
}

/// The real files behind the destinations of a list of links.
#[derive(Debug)]
pub struct Identities {
    pub of: Vec<Option<String>>,
}

impl View for Identities {
    type V = Seq<Option<Seq<char>>>;

    open spec fn view(&self) -> Seq<Option<Seq<char>>> {
        self.of@.map_values(|id: Option<String>| text_of(id))
    }
}

/// Looks up the real file behind the destination of each link.
pub fn identities(links: &Vec<Link>, variables: Option<&NameMap<String>>, fs: &Snapshot) -> (out:
    Result<Identities, ActionError>)
    ensures
        outcome(out) == identities_of(link_views(links@), bindings(variables), fs@),
{
    let ghost all = link_views(links@);
    let ghost vars = bindings(variables);
    let mut ids = Identities { of: Vec::new() };
    assert(ids@ =~= Seq::<Option<Seq<char>>>::empty());
    let mut i: usize = 0;
    while i < links.len()
        invariant
            i <= links.len(),
            all == link_views(links@),
            vars == bindings(variables),
            identities_of(all.take(i as int), vars, fs@) == Ok::<
                Seq<Option<Seq<char>>>,
                ErrorView,
            >(ids@),
        decreases links.len() - i,
    {
        proof {
            assert(all.take(i + 1).drop_last() =~= all.take(i as int));
        }
        let id: Option<String> = match links[i].destination.canonicalize_resolved(variables, fs) {
            Ok(canonical) => Some(canonical),
            Err(ActionError::Unobserved { path }) => {
                proof {
                    lemma_identities_fail(all, vars, fs@, i + 1);
                }
                return Err(ActionError::Unobserved { path });
            },
            Err(_) => None,
        };
        let ghost before = ids@;
        ids.of.push(id);
        assert(ids@ =~= before.push(text_of(id)));
        i += 1;
    }
    assert(all.take(i as int) =~= all);
    Ok(ids)
}

/// Whether the real file `canonical` is among `ids`.
pub fn is_known(ids: &Identities, canonical: &str) -> (yes: bool)
    ensures
        yes == ids@.contains(Some(canonical@)),
{
    let mut i: usize = 0;
    while i < ids.of.len()
        invariant
            i <= ids.of.len(),
            forall|j: int| 0 <= j < i ==> ids@[j] != Some(canonical@),
        decreases ids.of.len() - i,
    {
        let hit = match &ids.of[i] {
            Some(id) => crate::text::same_text(id.as_str(), canonical),
            None => false,
        };
        if hit {
            assert(ids@[i as int] == Some(canonical@));
            return true;
        }
        i += 1;
    }
    false
}

} // verus!

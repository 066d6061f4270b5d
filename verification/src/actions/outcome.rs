//! What an action hands back.

use vstd::prelude::*;
use crate::config::{ContextView, ProjectConfig, ProjectContext, ProjectView};
use crate::link::{link_views, Link, LinkView};
use crate::plan::{plan_view, ActionView, FsAction};
use crate::text::view_of;

verus! {

/// What an action hands back: the project as it is to be written, and the
/// changes to make to the file system, in order, before it is written.
#[derive(Debug)]
pub struct Outcome {
    pub config: ProjectConfig,
    pub plan: Vec<FsAction>,
}

/// An `Outcome` as a value of mathematics.
pub struct OutcomeView {
    pub config: ProjectView,
    pub plan: Seq<ActionView>,
}

impl View for Outcome {
    type V = OutcomeView;

    open spec fn view(&self) -> OutcomeView {
        OutcomeView { config: self.config@, plan: plan_view(self.plan@) }
    }
}

/// The project of `ctx` with `links` in place of its own.
pub open spec fn with_links(ctx: ContextView, links: Seq<LinkView>) -> ProjectView {
    ProjectView { links, ..ctx.project }
}

/// The project of `ctx` with `links` in place of its own.
pub fn replace_links(ctx: &ProjectContext, links: Vec<Link>) -> (config: ProjectConfig)
    ensures
        config@ == with_links(ctx@, link_views(links@)),
{
    let mut config = ctx.project.clone();
    config.links = links;
    config
}

/// The system that is active in `ctx`, borrowed.
pub fn active_system(ctx: &ProjectContext) -> (system: Option<&str>)
    ensures
        view_of(system) == ctx@.system,
{
    match &ctx.system {
        Some(name) => Some(name.as_str()),
        None => None,
    }
}

} // verus!

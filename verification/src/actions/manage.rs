//! Making a project known to the machine.

use vstd::prelude::*;
use crate::config::{ContextView, MachineView, OutputView, ProjectContext, SystemConfig};

verus! {

/// The machine's document after the project of `ctx` was registered: the
/// project is known under its name at its directory, with no system chosen
/// for it; with `default`, its directory is the machine's default as well.
pub open spec fn managed(ctx: ContextView, default: bool) -> MachineView {
    MachineView {
        default: if default {
            Some(ctx.project_config_path)
        } else {
            ctx.system_config.default
        },
        projects: ctx.system_config.projects.insert(
            ctx.project.name,
            OutputView { system: None, path: ctx.project_config_path },
        ),
        sudo_program: ctx.system_config.sudo_program,
    }
}

/// Registers the project of `ctx` with the machine, and makes it the
/// machine's default where `default` says so. No link is touched.
pub fn manage(ctx: &ProjectContext, default: bool) -> (config: SystemConfig)
    ensures
        config@ == managed(ctx@, default),
{
    let mut config = ctx.system_config.clone();
    config.add_project(ctx.project.name.clone(), ctx.project_config_path.clone());
    if default {
        config.default = Some(ctx.project_config_path.clone());
    }
    config
}

} // verus!

use dotfile_sync::actions::add::{
    add, add_individual_link, check_conflicts, drop_repeats, is_shadowed, is_taken, manage_list,
    place_link, split_request, take_in,
};
use dotfile_sync::actions::identity::{identities, is_known};
use dotfile_sync::actions::locate::{absolutize, derive_destination, locate, Located};
use dotfile_sync::actions::outcome::Outcome;
use dotfile_sync::actions::retarget::retarget;
use dotfile_sync::config::{Args, ProjectConfig, ProjectContext, SystemConfig};
use dotfile_sync::error::ActionError;
use dotfile_sync::link::Link;
use dotfile_sync::name_map::NameMap;
use dotfile_sync::plan::{move_link, restore_link, FsAction};
use dotfile_sync::snapshot::{Facts, Snapshot};
use dotfile_sync::source::SourceSelector;
use dotfile_sync::variable_path::VariablePath;

fn st(s: &str) -> String {
    s.to_string()
}

fn project_with(links: Vec<Link>) -> ProjectContext {
    let mut project = ProjectConfig::with_id(st("dots"), st("7"));
    project.links = links;
    ProjectContext {
        args: Args { config_file: None, project_path: None, project: None, system: None },
        project,
        project_config_path: st("/proj"),
        system_config: SystemConfig::new(),
        system_config_path: st("/cfg/config.toml"),
        system: None,
        current_dir: st("/home/u"),
    }
}

fn bashrc_link() -> Link {
    Link::new(
        st(".bashrc"),
        VariablePath::new(st("/home/u/.bashrc")),
        SourceSelector::new_single(st(".bashrc")),
    )
}

fn file_at(fs: &mut Snapshot, path: &str) {
    fs.insert(st(path), Facts::present(st(path), false));
}

fn nothing_at(fs: &mut Snapshot, path: &str) {
    fs.insert(st(path), Facts::absent());
}

fn moved_file(from: &str, to: &str) -> Vec<FsAction> {
    vec![
        FsAction::CopyFile { from: st(from), to: st(to) },
        FsAction::RemoveFile { path: st(from) },
        FsAction::Symlink { target: st(to), link: st(from) },
    ]
}

fn distinct_identities(ctx: &ProjectContext, outcome: &Outcome, fs: &Snapshot) -> bool {
    let ids = identities(&outcome.config.links, ctx.project.variables.as_ref(), fs).unwrap();
    for i in 0..ids.of.len() {
        for j in (i + 1)..ids.of.len() {
            if ids.of[i].is_some() && ids.of[i] == ids.of[j] {
                return false;
            }
        }
    }
    true
}

#[test]
fn add_without_files_is_refused() {
    let ctx = project_with(vec![]);
    let fs: Snapshot = NameMap::new();
    assert_eq!(add(&ctx, &fs, vec![], None, None).err(), Some(ActionError::NoFiles));
    assert_eq!(
        add(&ctx, &fs, vec![], Some(st("shell")), Some(st("x"))).err(),
        Some(ActionError::NoFiles)
    );
}

#[test]
fn add_of_a_file_makes_a_link_named_after_it() {
    let ctx = project_with(vec![]);
    let mut fs: Snapshot = NameMap::new();
    file_at(&mut fs, "/home/u/.bashrc");
    nothing_at(&mut fs, "/proj/.bashrc");
    let outcome = add(&ctx, &fs, vec![st("/home/u/.bashrc")], None, None).unwrap();
    assert_eq!(outcome.config.links.len(), 1);
    let link = &outcome.config.links[0];
    assert_eq!(link.name, ".bashrc");
    assert_eq!(link.destination.raw, "/home/u/.bashrc");
    assert_eq!(link.destination.resolve(None), Ok(st("/home/u/.bashrc")));
    assert!(link.source.is_single());
    assert_eq!(link.source.default_path(), ".bashrc");
    let mut expected = vec![FsAction::CreateDirAll { path: st("/proj") }];
    expected.extend(moved_file("/home/u/.bashrc", "/proj/.bashrc"));
    assert_eq!(outcome.plan, expected);
    assert_eq!(outcome.config.name, "dots");
    assert_eq!(outcome.config.id, "7");
    assert!(distinct_identities(&ctx, &outcome, &fs));
}

#[test]
fn add_asks_for_the_paths_it_has_to_know_of_one_by_one() {
    let ctx = project_with(vec![bashrc_link()]);
    let mut fs: Snapshot = NameMap::new();
    let again = |fs: &Snapshot| add(&ctx, fs, vec![st("/home/u/.vimrc")], None, None).err();
    assert_eq!(again(&fs), Some(ActionError::Unobserved { path: st("/home/u/.vimrc") }));
    file_at(&mut fs, "/home/u/.vimrc");
    assert_eq!(again(&fs), Some(ActionError::Unobserved { path: st("/home/u/.bashrc") }));
    fs.insert(st("/home/u/.bashrc"), Facts::present(st("/proj/.bashrc"), false));
    assert_eq!(again(&fs), Some(ActionError::Unobserved { path: st("/proj/.vimrc") }));
    nothing_at(&mut fs, "/proj/.vimrc");
    assert_eq!(again(&fs), None);
}

#[test]
fn add_of_a_missing_file_is_refused() {
    let ctx = project_with(vec![]);
    let mut fs: Snapshot = NameMap::new();
    nothing_at(&mut fs, "/home/u/.bashrc");
    assert_eq!(
        add(&ctx, &fs, vec![st("/home/u/.bashrc")], None, None).err(),
        Some(ActionError::NotFound { path: st("/home/u/.bashrc") })
    );
}

#[test]
fn add_of_a_path_with_an_undefined_variable_is_refused() {
    let ctx = project_with(vec![]);
    let mut fs: Snapshot = NameMap::new();
    nothing_at(&mut fs, "${HOME}/.bashrc");
    assert_eq!(
        add(&ctx, &fs, vec![st("${HOME}/.bashrc")], None, None).err(),
        Some(ActionError::UnresolvedVariable { name: st("HOME") })
    );
}

#[test]
fn add_keeps_the_variables_of_the_path_in_the_link() {
    let mut ctx = project_with(vec![]);
    let mut vars: NameMap<String> = NameMap::new();
    vars.insert(st("HOME"), st("/home/u"));
    ctx.project.variables = Some(vars);
    let mut fs: Snapshot = NameMap::new();
    nothing_at(&mut fs, "${HOME}/.bashrc");
    file_at(&mut fs, "/home/u/.bashrc");
    nothing_at(&mut fs, "/proj/.bashrc");
    let outcome = add(&ctx, &fs, vec![st("${HOME}/.bashrc")], None, None).unwrap();
    assert_eq!(outcome.config.links[0].destination.raw, "${HOME}/.bashrc");
    assert_eq!(outcome.config.links[0].name, ".bashrc");
    assert_eq!(outcome.config.variables.as_ref().unwrap().get("HOME"), Some(&st("/home/u")));
    assert_eq!(outcome.plan[1], FsAction::CopyFile { from: st("/home/u/.bashrc"), to: st("/proj/.bashrc") });
}

#[test]
fn a_path_without_a_root_is_taken_from_the_current_directory() {
    let ctx = project_with(vec![]);
    let mut fs: Snapshot = NameMap::new();
    fs.insert(st("notes.txt"), Facts::present(st("/home/u/notes.txt"), false));
    file_at(&mut fs, "/home/u/notes.txt");
    nothing_at(&mut fs, "/proj/notes.txt");
    let site = locate(&ctx, &fs, "notes.txt").unwrap();
    assert_eq!(site.location.raw, "/home/u/notes.txt");
    assert_eq!(site.canonical, "/home/u/notes.txt");
    assert!(!site.is_dir);
    let outcome = add(&ctx, &fs, vec![st("notes.txt")], None, None).unwrap();
    assert_eq!(outcome.config.links[0].destination.raw, "/home/u/notes.txt");
}

#[test]
fn a_path_without_a_root_at_which_nothing_exists_stays_as_it_is() {
    let ctx = project_with(vec![]);
    let mut fs: Snapshot = NameMap::new();
    nothing_at(&mut fs, "notes.txt");
    assert_eq!(
        locate(&ctx, &fs, "notes.txt").err(),
        Some(ActionError::NotFound { path: st("notes.txt") })
    );
}

#[test]
fn the_real_file_is_what_gets_moved() {
    let ctx = project_with(vec![]);
    let mut fs: Snapshot = NameMap::new();
    fs.insert(st("/home/u/cfg/.bashrc"), Facts::present(st("/data/cfg/.bashrc"), false));
    nothing_at(&mut fs, "/proj/.bashrc");
    let outcome = add(&ctx, &fs, vec![st("/home/u/cfg/.bashrc")], None, None).unwrap();
    assert_eq!(outcome.config.links[0].destination.raw, "/home/u/cfg/.bashrc");
    assert_eq!(outcome.plan[1..].to_vec(), moved_file("/data/cfg/.bashrc", "/proj/.bashrc"));
}

#[test]
fn a_directory_is_copied_and_removed_with_all_that_is_in_it() {
    let ctx = project_with(vec![]);
    let mut fs: Snapshot = NameMap::new();
    fs.insert(st("/home/u/.vim"), Facts::present(st("/home/u/.vim"), true));
    nothing_at(&mut fs, "/proj/.vim");
    let outcome = add(&ctx, &fs, vec![st("/home/u/.vim")], None, None).unwrap();
    assert_eq!(
        outcome.plan,
        vec![
            FsAction::CreateDirAll { path: st("/proj") },
            FsAction::CopyDir { from: st("/home/u/.vim"), to: st("/proj/.vim") },
            FsAction::RemoveDirAll { path: st("/home/u/.vim") },
            FsAction::Symlink { target: st("/proj/.vim"), link: st("/home/u/.vim") },
        ]
    );
}

#[test]
fn a_destination_inside_the_project_is_taken_from_its_directory() {
    let ctx = project_with(vec![]);
    let mut fs: Snapshot = NameMap::new();
    nothing_at(&mut fs, "/proj/shell/bashrc");
    assert_eq!(
        derive_destination(&ctx, &fs, Some("/proj/shell/bashrc"), "/home/u/.bashrc"),
        Ok(st("shell/bashrc"))
    );
    assert_eq!(
        derive_destination(&ctx, &fs, Some("shell/bashrc"), "/home/u/.bashrc"),
        Ok(st("shell/bashrc"))
    );
    assert_eq!(derive_destination(&ctx, &fs, None, "/home/u/.bashrc"), Ok(st(".bashrc")));
    assert_eq!(
        derive_destination(&ctx, &fs, None, "/").err(),
        Some(ActionError::NoFileName { path: st("/") })
    );
    assert_eq!(
        derive_destination(&ctx, &fs, Some("other"), "/home/u/.bashrc").err(),
        Some(ActionError::Unobserved { path: st("/proj/other") })
    );
}

#[test]
fn a_destination_that_is_a_directory_takes_the_file_under_its_own_name() {
    let ctx = project_with(vec![]);
    let mut fs: Snapshot = NameMap::new();
    fs.insert(st("/proj/shell"), Facts::present(st("/proj/shell"), true));
    file_at(&mut fs, "/home/u/.bashrc");
    nothing_at(&mut fs, "/proj/shell/.bashrc");
    assert_eq!(
        derive_destination(&ctx, &fs, Some("shell"), "/home/u/.bashrc"),
        Ok(st("shell/.bashrc"))
    );
    assert_eq!(
        derive_destination(&ctx, &fs, Some("shell"), "/").err(),
        Some(ActionError::NoFileName { path: st("/") })
    );
    let outcome =
        add(&ctx, &fs, vec![st("/home/u/.bashrc")], Some(st("/proj/shell")), Some(st("rc"))).unwrap();
    let link = &outcome.config.links[0];
    assert_eq!(link.name, "rc");
    assert_eq!(link.source.default_path(), "shell/.bashrc");
    assert_eq!(outcome.plan[0], FsAction::CreateDirAll { path: st("/proj/shell") });
    assert_eq!(
        outcome.plan[3],
        FsAction::Symlink { target: st("/proj/shell/.bashrc"), link: st("/home/u/.bashrc") }
    );
}

#[test]
fn add_of_a_managed_file_under_another_name_is_refused_as_existing() {
    let mut ctx = project_with(vec![bashrc_link()]);
    ctx.system = Some(st("work"));
    let mut fs: Snapshot = NameMap::new();
    fs.insert(st("/home/u/.bashrc"), Facts::present(st("/proj/.bashrc"), false));
    file_at(&mut fs, "/proj/.bashrc");
    assert_eq!(
        add(&ctx, &fs, vec![st("/home/u/.bashrc")], None, Some(st("x"))).err(),
        Some(ActionError::DestinationAlreadyExists { path: st("/home/u/.bashrc") })
    );
}

#[test]
fn add_of_the_destination_of_a_link_is_refused_wherever_the_copy_is_to_go() {
    let mut ctx = project_with(vec![bashrc_link()]);
    ctx.system = Some(st("work"));
    let mut fs: Snapshot = NameMap::new();
    file_at(&mut fs, "/home/u/.bashrc");
    nothing_at(&mut fs, "/proj/.bashrc.work");
    assert_eq!(
        add(&ctx, &fs, vec![st("/home/u/.bashrc")], Some(st(".bashrc.work")), Some(st("x"))).err(),
        Some(ActionError::DestinationAlreadyExists { path: st("/home/u/.bashrc") })
    );
}

#[test]
fn add_to_a_place_that_exists_is_refused() {
    let ctx = project_with(vec![]);
    let mut fs: Snapshot = NameMap::new();
    file_at(&mut fs, "/home/u/.bashrc");
    file_at(&mut fs, "/proj/.bashrc");
    assert_eq!(
        add(&ctx, &fs, vec![st("/home/u/.bashrc")], None, None).err(),
        Some(ActionError::DestinationAlreadyExists { path: st("/home/u/.bashrc") })
    );
}

#[test]
fn add_under_the_managed_copy_of_another_link_is_refused() {
    let shell = Link::new(
        st("shell"),
        VariablePath::new(st("/home/u/.config/shell")),
        SourceSelector::new_single(st("shell")),
    );
    let ctx = project_with(vec![shell]);
    let mut fs: Snapshot = NameMap::new();
    file_at(&mut fs, "/home/u/.bashrc");
    fs.insert(st("/home/u/.config/shell"), Facts::present(st("/proj/shell"), true));
    nothing_at(&mut fs, "/proj/shell/.bashrc");
    assert!(is_shadowed(&ctx.project.links, "/proj", "shell/.bashrc"));
    assert!(!is_shadowed(&ctx.project.links, "/proj", "vim/.vimrc"));
    assert_eq!(
        add(&ctx, &fs, vec![st("/home/u/.bashrc")], Some(st("shell/.bashrc")), None).err(),
        Some(ActionError::DestinationAlreadyExists { path: st("/home/u/.bashrc") })
    );
}

#[test]
fn add_under_a_name_that_is_taken_is_refused() {
    let ctx = project_with(vec![bashrc_link()]);
    let mut fs: Snapshot = NameMap::new();
    fs.insert(st("/home/u/.bashrc"), Facts::present(st("/proj/.bashrc"), false));
    file_at(&mut fs, "/home/u/.vimrc");
    nothing_at(&mut fs, "/proj/.vimrc");
    assert!(is_taken(&ctx.project.links, ".bashrc"));
    assert!(!is_taken(&ctx.project.links, ".vimrc"));
    assert_eq!(
        add(&ctx, &fs, vec![st("/home/u/.vimrc")], None, Some(st(".bashrc"))).err(),
        Some(ActionError::DuplicateLink { name: st(".bashrc") })
    );
    let outcome = add(&ctx, &fs, vec![st("/home/u/.vimrc")], None, None).unwrap();
    assert_eq!(outcome.config.links.len(), 2);
    assert_eq!(outcome.config.links[0].name, ".bashrc");
    assert_eq!(outcome.config.links[1].name, ".vimrc");
    assert!(distinct_identities(&ctx, &outcome, &fs));
}

#[test]
fn add_of_a_file_whose_own_name_is_taken_is_refused() {
    let other = Link::new(
        st(".bashrc"),
        VariablePath::new(st("/root/.bashrc")),
        SourceSelector::new_single(st("root/.bashrc")),
    );
    let ctx = project_with(vec![other]);
    let mut fs: Snapshot = NameMap::new();
    file_at(&mut fs, "/home/u/.bashrc");
    fs.insert(st("/root/.bashrc"), Facts::present(st("/proj/root/.bashrc"), false));
    nothing_at(&mut fs, "/proj/.bashrc");
    assert_eq!(
        add(&ctx, &fs, vec![st("/home/u/.bashrc")], None, None).err(),
        Some(ActionError::DuplicateLink { name: st(".bashrc") })
    );
}

#[test]
fn a_link_whose_destination_cannot_be_resolved_has_no_real_file() {
    let odd = Link::new(
        st("odd"),
        VariablePath::new(st("${NOWHERE}/odd")),
        SourceSelector::new_single(st("odd")),
    );
    let ctx = project_with(vec![odd, bashrc_link()]);
    let mut fs: Snapshot = NameMap::new();
    nothing_at(&mut fs, "/home/u/.bashrc");
    let ids = identities(&ctx.project.links, None, &fs).unwrap();
    assert_eq!(ids.of, vec![None, None]);
    fs.insert(st("/home/u/.bashrc"), Facts::present(st("/proj/.bashrc"), false));
    let ids = identities(&ctx.project.links, None, &fs).unwrap();
    assert_eq!(ids.of, vec![None, Some(st("/proj/.bashrc"))]);
    assert!(is_known(&ids, "/proj/.bashrc"));
    assert!(!is_known(&ids, "/home/u/.bashrc"));
}

#[test]
fn placing_a_file_that_is_a_destination_gives_the_link_a_copy_for_the_system() {
    let links = vec![bashrc_link()];
    let mut fs: Snapshot = NameMap::new();
    file_at(&mut fs, "/home/u/.bashrc");
    let site = Located {
        location: VariablePath::new(st("/home/u/.bashrc")),
        canonical: st("/home/u/.bashrc"),
        is_dir: false,
    };
    let next = place_link(&links, None, &fs, Some("work"), &site, ".bashrc.work", "x").unwrap();
    assert_eq!(next.len(), 1);
    assert_eq!(next[0].name, ".bashrc");
    assert_eq!(next[0].destination.raw, "/home/u/.bashrc");
    assert!(!next[0].source.is_single());
    assert_eq!(next[0].source.default_path(), ".bashrc");
    let table = next[0].source.overrides().unwrap();
    assert_eq!(table.len(), 1);
    assert_eq!(table.get("work"), Some(&st(".bashrc.work")));
    assert!(links[0].source.is_single());
}

#[test]
fn placing_a_file_that_is_a_destination_needs_a_system() {
    let links = vec![bashrc_link()];
    let mut fs: Snapshot = NameMap::new();
    file_at(&mut fs, "/home/u/.bashrc");
    let site = Located {
        location: VariablePath::new(st("/home/u/.bashrc")),
        canonical: st("/home/u/.bashrc"),
        is_dir: false,
    };
    assert_eq!(
        place_link(&links, None, &fs, None, &site, ".bashrc.work", "x").err(),
        Some(ActionError::MissingSystem)
    );
}

#[test]
fn placing_a_new_file_makes_a_link_at_the_end() {
    let links = vec![bashrc_link()];
    let mut fs: Snapshot = NameMap::new();
    fs.insert(st("/home/u/.bashrc"), Facts::present(st("/proj/.bashrc"), false));
    let site = Located {
        location: VariablePath::new(st("/home/u/.vimrc")),
        canonical: st("/home/u/.vimrc"),
        is_dir: false,
    };
    let next = place_link(&links, None, &fs, None, &site, "vim/.vimrc", "vim").unwrap();
    assert_eq!(next.len(), 2);
    assert_eq!(next[0].name, ".bashrc");
    assert_eq!(next[1].name, "vim");
    assert_eq!(next[1].destination.raw, "/home/u/.vimrc");
    assert!(next[1].source.is_single());
    assert_eq!(next[1].source.default_path(), "vim/.vimrc");
    assert_eq!(
        place_link(&links, None, &fs, None, &site, "vim/.vimrc", ".bashrc").err(),
        Some(ActionError::DuplicateLink { name: st(".bashrc") })
    );
    let empty: Snapshot = NameMap::new();
    assert_eq!(
        place_link(&links, None, &empty, None, &site, "vim/.vimrc", "vim").err(),
        Some(ActionError::Unobserved { path: st("/home/u/.bashrc") })
    );
}

#[test]
fn a_batch_adds_every_file_under_its_own_name() {
    let ctx = project_with(vec![]);
    let mut fs: Snapshot = NameMap::new();
    file_at(&mut fs, "/home/u/.bashrc");
    file_at(&mut fs, "/home/u/.vimrc");
    nothing_at(&mut fs, "/proj/shell/.bashrc");
    nothing_at(&mut fs, "/proj/shell/.vimrc");
    let outcome = add(
        &ctx,
        &fs,
        vec![st("/home/u/.bashrc"), st("/home/u/.vimrc")],
        Some(st("shell")),
        Some(st("ignored")),
    )
    .unwrap();
    assert_eq!(outcome.config.links.len(), 2);
    assert_eq!(outcome.config.links[0].name, ".bashrc");
    assert_eq!(outcome.config.links[0].source.default_path(), "shell/.bashrc");
    assert_eq!(outcome.config.links[1].name, ".vimrc");
    assert_eq!(outcome.config.links[1].destination.raw, "/home/u/.vimrc");
    let mut expected = vec![FsAction::CreateDirAll { path: st("/proj/shell") }];
    expected.extend(moved_file("/home/u/.bashrc", "/proj/shell/.bashrc"));
    expected.extend(moved_file("/home/u/.vimrc", "/proj/shell/.vimrc"));
    assert_eq!(outcome.plan, expected);
    assert!(distinct_identities(&ctx, &outcome, &fs));
}

#[test]
fn a_batch_without_a_directory_goes_to_the_top_of_the_project() {
    let ctx = project_with(vec![]);
    let mut fs: Snapshot = NameMap::new();
    file_at(&mut fs, "/home/u/.bashrc");
    file_at(&mut fs, "/home/u/.vimrc");
    nothing_at(&mut fs, "/proj/./.bashrc");
    nothing_at(&mut fs, "/proj/./.vimrc");
    let outcome =
        manage_list(&ctx, &fs, vec![st("/home/u/.bashrc"), st("/home/u/.vimrc")], None).unwrap();
    assert_eq!(outcome.plan[0], FsAction::CreateDirAll { path: st("/proj/.") });
    assert_eq!(outcome.config.links[0].source.default_path(), "./.bashrc");
    assert_eq!(outcome.config.links[1].source.default_path(), "./.vimrc");
}

#[test]
fn a_batch_counts_equal_neighbours_once() {
    let ctx = project_with(vec![]);
    let mut fs: Snapshot = NameMap::new();
    file_at(&mut fs, "/home/u/.bashrc");
    file_at(&mut fs, "/home/u/.vimrc");
    nothing_at(&mut fs, "/proj/shell/.bashrc");
    nothing_at(&mut fs, "/proj/shell/.vimrc");
    let outcome = manage_list(
        &ctx,
        &fs,
        vec![st("/home/u/.bashrc"), st("/home/u/.bashrc"), st("/home/u/.vimrc"), st("/home/u/.vimrc")],
        Some(st("shell")),
    )
    .unwrap();
    assert_eq!(outcome.config.links.len(), 2);
    assert_eq!(outcome.plan.len(), 7);
}

#[test]
fn a_batch_counts_a_file_that_is_named_twice_apart_once() {
    let ctx = project_with(vec![]);
    let mut fs: Snapshot = NameMap::new();
    file_at(&mut fs, "/home/u/.bashrc");
    file_at(&mut fs, "/home/u/.vimrc");
    nothing_at(&mut fs, "/proj/shell/.bashrc");
    nothing_at(&mut fs, "/proj/shell/.vimrc");
    let twice = manage_list(
        &ctx,
        &fs,
        vec![st("/home/u/.bashrc"), st("/home/u/.vimrc"), st("/home/u/.bashrc")],
        Some(st("shell")),
    )
    .unwrap();
    let once = manage_list(
        &ctx,
        &fs,
        vec![st("/home/u/.bashrc"), st("/home/u/.vimrc")],
        Some(st("shell")),
    )
    .unwrap();
    assert_eq!(twice.plan, once.plan);
    assert_eq!(twice.config.links.len(), 2);
    assert_eq!(twice.config.links[0].name, ".bashrc");
    assert_eq!(twice.config.links[1].name, ".vimrc");
    assert_eq!(
        drop_repeats(vec![st("a"), st("b"), st("a"), st("c"), st("b"), st("a")]),
        vec![st("a"), st("b"), st("c")]
    );
    assert_eq!(drop_repeats(vec![]), Vec::<String>::new());
}

#[test]
fn a_batch_is_refused_as_a_whole() {
    let ctx = project_with(vec![]);
    let mut fs: Snapshot = NameMap::new();
    file_at(&mut fs, "/home/u/.bashrc");
    file_at(&mut fs, "/home/u/.vimrc");
    nothing_at(&mut fs, "/proj/shell/.bashrc");
    file_at(&mut fs, "/proj/shell/.vimrc");
    assert_eq!(
        manage_list(
            &ctx,
            &fs,
            vec![st("/home/u/.bashrc"), st("/home/u/.vimrc")],
            Some(st("shell")),
        )
        .err(),
        Some(ActionError::DestinationAlreadyExists { path: st("shell/.vimrc") })
    );
    nothing_at(&mut fs, "/home/u/.missing");
    assert_eq!(
        manage_list(
            &ctx,
            &fs,
            vec![st("/home/u/.bashrc"), st("/home/u/.missing")],
            Some(st("shell")),
        )
        .err(),
        Some(ActionError::NotFound { path: st("/home/u/.missing") })
    );
}

#[test]
fn a_batch_gives_a_link_that_stands_a_copy_for_the_system() {
    let mut ctx = project_with(vec![bashrc_link()]);
    ctx.system = Some(st("work"));
    let mut fs: Snapshot = NameMap::new();
    file_at(&mut fs, "/home/u/.bashrc");
    file_at(&mut fs, "/home/u/.vimrc");
    nothing_at(&mut fs, "/proj/work/.bashrc");
    nothing_at(&mut fs, "/proj/work/.vimrc");
    let outcome = manage_list(
        &ctx,
        &fs,
        vec![st("/home/u/.bashrc"), st("/home/u/.vimrc")],
        Some(st("work")),
    )
    .unwrap();
    assert_eq!(outcome.config.links.len(), 2);
    let first = &outcome.config.links[0];
    assert_eq!(first.name, ".bashrc");
    assert_eq!(first.source.default_path(), ".bashrc");
    assert_eq!(first.source.resolve_for(Some("work")), "work/.bashrc");
    assert_eq!(first.source.overrides().unwrap().len(), 1);
    assert_eq!(outcome.config.links[1].name, ".vimrc");
    assert!(outcome.config.links[1].source.is_single());
    assert_eq!(outcome.plan.len(), 7);
    assert!(distinct_identities(&ctx, &outcome, &fs));

    ctx.system = None;
    assert_eq!(
        manage_list(
            &ctx,
            &fs,
            vec![st("/home/u/.bashrc"), st("/home/u/.vimrc")],
            Some(st("work")),
        )
        .err(),
        Some(ActionError::MissingSystem)
    );
}

#[test]
fn one_file_of_a_batch_is_decided_on_the_links_before_it() {
    let ctx = project_with(vec![]);
    let mut fs: Snapshot = NameMap::new();
    file_at(&mut fs, "/home/u/.bashrc");
    nothing_at(&mut fs, "/proj/shell/.bashrc");
    let item = take_in(&ctx, &fs, "shell", &vec![], "/home/u/.bashrc").unwrap();
    assert_eq!(item.links.len(), 1);
    assert_eq!(item.moves, moved_file("/home/u/.bashrc", "/proj/shell/.bashrc"));
    fs.insert(st("/"), Facts::present(st("/"), true));
    assert_eq!(
        take_in(&ctx, &fs, "shell", &vec![], "/").err(),
        Some(ActionError::NoFileName { path: st("/") })
    );
}

#[test]
fn add_individual_link_is_add_of_one_file() {
    let ctx = project_with(vec![]);
    let mut fs: Snapshot = NameMap::new();
    file_at(&mut fs, "/home/u/.bashrc");
    nothing_at(&mut fs, "/proj/rc");
    let outcome =
        add_individual_link(&ctx, &fs, st("/home/u/.bashrc"), Some(st("rc")), Some(st("bash")))
            .unwrap();
    assert_eq!(outcome.config.links.len(), 1);
    assert_eq!(outcome.config.links[0].name, "bash");
    assert_eq!(outcome.config.links[0].source.default_path(), "rc");
    fs.insert(st("/"), Facts::present(st("/"), true));
    nothing_at(&mut fs, "/proj/root");
    assert_eq!(
        add_individual_link(&ctx, &fs, st("/"), Some(st("root")), None).err(),
        Some(ActionError::NoFileName { path: st("/") })
    );
}

#[test]
fn a_copy_at_the_root_has_no_directory_to_create() {
    let mut ctx = project_with(vec![]);
    ctx.project_config_path = st("");
    let mut fs: Snapshot = NameMap::new();
    file_at(&mut fs, "/home/u/.bashrc");
    nothing_at(&mut fs, "/");
    assert_eq!(
        add(&ctx, &fs, vec![st("/home/u/.bashrc")], Some(st("/")), Some(st("x"))).err(),
        Some(ActionError::NoParent { path: st("/") })
    );
}

#[test]
fn move_link_copies_removes_and_links() {
    assert_eq!(move_link("/a", "/p/a", false), moved_file("/a", "/p/a"));
    assert_eq!(
        move_link("/d", "/p/d", true),
        vec![
            FsAction::CopyDir { from: st("/d"), to: st("/p/d") },
            FsAction::RemoveDirAll { path: st("/d") },
            FsAction::Symlink { target: st("/p/d"), link: st("/d") },
        ]
    );
    assert_eq!(
        FsAction::CopyDir { from: st("/d"), to: st("/p/d") }.clone(),
        FsAction::CopyDir { from: st("/d"), to: st("/p/d") }
    );
}

#[test]
fn restore_link_unlinks_copies_back_and_removes() {
    assert_eq!(
        restore_link("/a", "/p/a", false),
        vec![
            FsAction::RemoveFile { path: st("/a") },
            FsAction::CopyFile { from: st("/p/a"), to: st("/a") },
            FsAction::RemoveFile { path: st("/p/a") },
        ]
    );
    assert_eq!(
        restore_link("/d", "/p/d", true),
        vec![
            FsAction::RemoveFile { path: st("/d") },
            FsAction::CopyDir { from: st("/p/d"), to: st("/d") },
            FsAction::RemoveDirAll { path: st("/p/d") },
        ]
    );
}

#[test]
fn a_path_with_a_root_is_not_looked_at_to_make_it_absolute() {
    let ctx = project_with(vec![]);
    let fs: Snapshot = NameMap::new();
    assert_eq!(absolutize(&ctx, &fs, "/etc/hosts").unwrap().raw, "/etc/hosts");
    assert_eq!(
        absolutize(&ctx, &fs, "hosts").err(),
        Some(ActionError::Unobserved { path: st("hosts") })
    );
}

#[test]
fn check_conflicts_passes_a_new_file_at_a_free_place() {
    let ctx = project_with(vec![bashrc_link()]);
    let mut fs: Snapshot = NameMap::new();
    fs.insert(st("/home/u/.bashrc"), Facts::present(st("/proj/.bashrc"), false));
    nothing_at(&mut fs, "/proj/.vimrc");
    file_at(&mut fs, "/proj/.bashrc");
    let site = Located {
        location: VariablePath::new(st("/home/u/.vimrc")),
        canonical: st("/home/u/.vimrc"),
        is_dir: false,
    };
    assert_eq!(check_conflicts(&ctx, &fs, &site, ".vimrc"), Ok(()));
    assert_eq!(
        check_conflicts(&ctx, &fs, &site, ".bashrc"),
        Err(ActionError::DestinationAlreadyExists { path: st("/home/u/.vimrc") })
    );
    let managed = Located {
        location: VariablePath::new(st("/somewhere/else")),
        canonical: st("/proj/.bashrc"),
        is_dir: false,
    };
    assert_eq!(
        check_conflicts(&ctx, &fs, &managed, ".vimrc"),
        Err(ActionError::DestinationAlreadyExists { path: st("/somewhere/else") })
    );
}

#[test]
fn a_destination_with_a_doubled_separator_stays_in_the_project() {
    let ctx = project_with(vec![]);
    let mut fs: Snapshot = NameMap::new();
    file_at(&mut fs, "/home/u/.bashrc");
    nothing_at(&mut fs, "/proj/x");
    assert_eq!(
        derive_destination(&ctx, &fs, Some("/proj//x"), "/home/u/.bashrc"),
        Ok(st("x"))
    );
    let outcome = add(&ctx, &fs, vec![st("/home/u/.bashrc")], Some(st("/proj//x")), None).unwrap();
    assert_eq!(outcome.config.links[0].source.default_path(), "x");
    assert_eq!(
        outcome.plan[1],
        FsAction::CopyFile { from: st("/home/u/.bashrc"), to: st("/proj/x") }
    );
}

#[test]
fn a_place_that_leaves_a_managed_directory_again_is_not_under_it() {
    let shell = Link::new(
        st("shell"),
        VariablePath::new(st("/home/u/.config/shell")),
        SourceSelector::new_single(st("shell")),
    );
    let links = vec![shell];
    assert!(!is_shadowed(&links, "/proj", "shell/../other"));
    assert!(is_shadowed(&links, "/proj", "other/../shell/x"));
    assert!(is_shadowed(&links, "/proj", "./shell//x"));
}

#[test]
fn the_last_of_several_words_is_the_place_asked_for() {
    assert_eq!(split_request(vec![st("a")]), (vec![st("a")], None));
    assert_eq!(split_request(vec![st("a"), st("d")]), (vec![st("a")], Some(st("d"))));
    assert_eq!(
        split_request(vec![st("a"), st("b"), st("d")]),
        (vec![st("a"), st("b")], Some(st("d")))
    );
    assert_eq!(split_request(vec![]), (vec![], None));
}

#[test]
fn retarget_gives_the_link_at_the_file_a_copy_for_the_system() {
    let mut ctx = project_with(vec![bashrc_link()]);
    ctx.system = Some(st("work"));
    let mut fs: Snapshot = NameMap::new();
    file_at(&mut fs, "/home/u/.bashrc");
    nothing_at(&mut fs, "/proj/.bashrc.work");
    let outcome = retarget(&ctx, &fs, "/home/u/.bashrc", Some(st(".bashrc.work"))).unwrap();
    assert_eq!(outcome.config.links.len(), 1);
    let link = &outcome.config.links[0];
    assert_eq!(link.name, ".bashrc");
    assert_eq!(link.source.default_path(), ".bashrc");
    assert_eq!(link.source.overrides().unwrap().len(), 1);
    assert_eq!(link.source.resolve_for(Some("work")), ".bashrc.work");
    let mut expected = vec![FsAction::CreateDirAll { path: st("/proj") }];
    expected.extend(moved_file("/home/u/.bashrc", "/proj/.bashrc.work"));
    assert_eq!(outcome.plan, expected);
}

#[test]
fn retarget_is_refused_without_a_system_a_link_or_a_free_place() {
    let mut ctx = project_with(vec![bashrc_link()]);
    let mut fs: Snapshot = NameMap::new();
    file_at(&mut fs, "/home/u/.bashrc");
    file_at(&mut fs, "/home/u/.vimrc");
    nothing_at(&mut fs, "/proj/.bashrc.work");
    file_at(&mut fs, "/proj/.bashrc");
    assert_eq!(
        retarget(&ctx, &fs, "/home/u/.bashrc", Some(st(".bashrc.work"))).err(),
        Some(ActionError::MissingSystem)
    );
    ctx.system = Some(st("work"));
    assert_eq!(
        retarget(&ctx, &fs, "/home/u/.vimrc", Some(st(".bashrc.work"))).err(),
        Some(ActionError::NoSuchLink { path: st("/home/u/.vimrc") })
    );
    assert_eq!(
        retarget(&ctx, &fs, "/home/u/.bashrc", None).err(),
        Some(ActionError::DestinationAlreadyExists { path: st("/home/u/.bashrc") })
    );
}

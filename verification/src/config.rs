//! The document of a project, the document of the machine, and the choice
//! of project and system that an invocation works with.

use std::collections::hash_map::DefaultHasher;
use std::hash::Hasher;
use std::time::Instant;
use directories::ProjectDirs;
use vstd::prelude::*;
use crate::error::{outcome, ActionError, ErrorView};
use crate::name_map::{NameMap, Replicate};
use crate::path::{
    join, joined, parent, parent_of, relative_to, rooted, same_place, strip_prefix,
};
use crate::snapshot::{observe, observed, FactsView, Snapshot};
use crate::text::{copy_text, decimal, decimal_text, text_of, texts_of, view_of};
use crate::link::{copy_links, link_views, Link, LinkView, System};

verus! {

/// The name of the document that a project keeps in its directory.
pub open spec fn document_name() -> Seq<char> {
    ".links.toml"@
}

/// The name of the document that a machine keeps in its configuration
/// directory.
pub open spec fn machine_document_name() -> Seq<char> {
    "config.toml"@
}

/// What a project keeps in its document.
#[derive(Debug)]
pub struct ProjectConfig {
    pub name: String,
    /// Given once, when the project is created, and never changed.
    pub id: String,
    /// The system to work with where none is chosen otherwise.
    pub default: Option<System>,
    pub systems: Vec<System>,
    pub variables: Option<NameMap<String>>,
    /// Carried through as the document has it.
    pub goals: Option<String>,
    /// Carried through as the document has it.
    pub programs: Option<String>,
    pub links: Vec<Link>,
}

/// A `ProjectConfig` as a value of mathematics.
pub struct ProjectView {
    pub name: Seq<char>,
    pub id: Seq<char>,
    pub default: Option<Seq<char>>,
    pub systems: Seq<Seq<char>>,
    pub variables: Option<Map<Seq<char>, Seq<char>>>,
    pub goals: Option<Seq<char>>,
    pub programs: Option<Seq<char>>,
    pub links: Seq<LinkView>,
}

impl View for ProjectConfig {
    type V = ProjectView;

    open spec fn view(&self) -> ProjectView {
        ProjectView {
            name: self.name@,
            id: self.id@,
            default: text_of(self.default),
            systems: texts_of(self.systems@),
            variables: match self.variables {
                Some(table) => Some(table@),
                None => None,
            },
            goals: text_of(self.goals),
            programs: text_of(self.programs),
            links: link_views(self.links@),
        }
    }
}

impl Clone for ProjectConfig {
    fn clone(&self) -> (copy: Self)
        ensures
            copy@ == self@,
    {
        let systems = self.systems.clone();
        ProjectConfig {
            name: self.name.clone(),
            id: self.id.clone(),
            default: copy_text(&self.default),
            systems,
            variables: match &self.variables {
                Some(table) => Some(table.clone()),
                None => None,
            },
            goals: copy_text(&self.goals),
            programs: copy_text(&self.programs),
            links: copy_links(&self.links),
        }
    }
}

/// A project that was just created under `name` with the identifier `id`:
/// no system, no variable, no link.
pub open spec fn fresh_project(name: Seq<char>, id: Seq<char>) -> ProjectView {
    ProjectView {
        name,
        id,
        default: None,
        systems: Seq::empty(),
        variables: None,
        goals: None,
        programs: None,
        links: Seq::empty(),
    }
}

/// A document to write: where, and what.
#[derive(Debug)]
pub struct Document {
    pub path: String,
    pub config: ProjectConfig,
}

/// Calls `std::time::Instant::now`. Nothing is claimed of the moment that
/// comes back.
#[verifier::external_body]
fn moment() -> (now: Instant) {
    Instant::now()
}

/// Calls `std::hash::Hash::hash` on an `Instant`, which feeds the moment to
/// the hasher. Nothing is claimed of the hasher's state afterwards.
#[verifier::external_body]
fn feed_moment(moment: &Instant, state: &mut DefaultHasher) {
    std::hash::Hash::hash(moment, state)
}

impl ProjectConfig {
    /// `path` as seen from the project's directory `proj_path`, if it lies
    /// in it. The rest is cut off by whole parts: it has no root, and
    /// joined with `proj_path` it names the parts that `path` names.
    pub fn remove_start(proj_path: &str, path: &str) -> (rest: Option<String>)
        ensures
            text_of(rest) == relative_to(proj_path@, path@),
            proj_path@.len() > 0 && rest is Some ==> !rooted(rest->0@) && same_place(
                joined(proj_path@, rest->0@),
                path@,
            ),
    {
        strip_prefix(proj_path, path)
    }

    /// A project that was just created under `name` with the identifier
    /// `id`.
    pub fn with_id(name: String, id: String) -> (project: ProjectConfig)
        ensures
            project@ == fresh_project(name@, id@),
    {
        let project = ProjectConfig {
            default: None,
            name,
            id,
            systems: Vec::new(),
            links: Vec::new(),
            variables: None,
            goals: None,
            programs: None,
        };
        assert(texts_of(project.systems@) =~= Seq::<Seq<char>>::empty());
        assert(link_views(project.links@) =~= Seq::<LinkView>::empty());
        project
    }

    /// A new project named `name` in the directory `path`. Its identifier
    /// is a number in decimal digits, drawn from the name, the path and the
    /// moment of the call; the rest is as `with_id` makes it.
    pub fn new(name: String, path: &str) -> (project: ProjectConfig)
        ensures
            project@ == fresh_project(name@, project@.id),
            exists|number: u64| project@.id == decimal(number as nat),
    {
        let mut hasher = DefaultHasher::new();
        hasher.write(name.as_str().as_bytes());
        hasher.write(path.as_bytes());
        let now = moment();
        feed_moment(&now, &mut hasher);
        let number = hasher.finish();
        let id = decimal_text(number);
        ProjectConfig::with_id(name, id)
    }

    /// The document to write for this project: a copy of it, to be put in
    /// the project's directory under the document's name.
    pub fn save(&self, ctx: &ProjectContext) -> (document: Document)
        ensures
            document.path@ == joined(ctx.project_config_path@, document_name()),
            document.config@ == self@,
    {
        Document { path: join(ctx.project_config_path.as_str(), ".links.toml"), config: self.clone() }
    }
}

/// Where a project lies, and the system to use for it on this machine.
#[derive(Debug)]
pub struct ProjectOutput {
    pub system: Option<System>,
    pub path: String,
}

/// A `ProjectOutput` as a value of mathematics.
pub struct OutputView {
    pub system: Option<Seq<char>>,
    pub path: Seq<char>,
}

impl View for ProjectOutput {
    type V = OutputView;

    open spec fn view(&self) -> OutputView {
        OutputView { system: text_of(self.system), path: self.path@ }
    }
}

impl Clone for ProjectOutput {
    fn clone(&self) -> (copy: Self)
        ensures
            copy@ == self@,
    {
        ProjectOutput { system: copy_text(&self.system), path: self.path.clone() }
    }
}

impl Replicate for ProjectOutput {
    fn replicate(&self) -> (copy: ProjectOutput) {
        self.clone()
    }
}

/// What a machine keeps in its document: the projects it knows by name.
#[derive(Debug)]
pub struct SystemConfig {
    /// The directory of the project to work with where none is named.
    pub default: Option<String>,
    pub projects: NameMap<ProjectOutput>,
    pub sudo_program: Option<String>,
}

/// A `SystemConfig` as a value of mathematics.
pub struct MachineView {
    pub default: Option<Seq<char>>,
    pub projects: Map<Seq<char>, OutputView>,
    pub sudo_program: Option<Seq<char>>,
}

impl View for SystemConfig {
    type V = MachineView;

    open spec fn view(&self) -> MachineView {
        MachineView {
            default: text_of(self.default),
            projects: self.projects@,
            sudo_program: text_of(self.sudo_program),
        }
    }
}

impl Clone for SystemConfig {
    fn clone(&self) -> (copy: Self)
        ensures
            copy@ == self@,
    {
        SystemConfig {
            default: copy_text(&self.default),
            projects: self.projects.clone(),
            sudo_program: copy_text(&self.sudo_program),
        }
    }
}

/// A machine that knows no project.
pub open spec fn fresh_machine() -> MachineView {
    MachineView { default: None, projects: Map::empty(), sudo_program: None }
}

impl Default for SystemConfig {
    fn default() -> (config: Self)
        ensures
            config@ == fresh_machine(),
    {
        SystemConfig::new()
    }
}

impl SystemConfig {
    /// The document of a machine that knows no project.
    pub fn new() -> (config: SystemConfig)
        ensures
            config@ == fresh_machine(),
    {
        SystemConfig { default: None, projects: NameMap::new(), sudo_program: None }
    }

    /// What the machine knows of the project `name`.
    pub fn get_project(&self, name: &str) -> (found: Option<&ProjectOutput>)
        ensures
            match found {
                Some(output) => self@.projects.contains_key(name@) && self@.projects[name@]
                    == output@,
                None => !self@.projects.contains_key(name@),
            },
    {
        self.projects.get(name)
    }

    /// Makes the project `name` known at `path`, with no system chosen for
    /// it. What was known of a project of that name is replaced.
    pub fn add_project(&mut self, name: String, path: String)
        ensures
            final(self)@ == (MachineView {
                projects: old(self)@.projects.insert(
                    name@,
                    OutputView { system: None, path: path@ },
                ),
                ..old(self)@
            }),
    {
        self.projects.insert(name, ProjectOutput { system: None, path });
    }
}

/// What the user chose on the command line, apart from the command itself.
#[derive(Debug)]
pub struct Args {
    /// The document of the machine, where it is not at its usual place.
    pub config_file: Option<String>,
    /// The directory, or the document, of the project.
    pub project_path: Option<String>,
    /// The name under which the machine knows the project.
    pub project: Option<String>,
    pub system: Option<System>,
}

/// `Args` as a value of mathematics.
pub struct ArgsView {
    pub config_file: Option<Seq<char>>,
    pub project_path: Option<Seq<char>>,
    pub project: Option<Seq<char>>,
    pub system: Option<Seq<char>>,
}

impl View for Args {
    type V = ArgsView;

    open spec fn view(&self) -> ArgsView {
        ArgsView {
            config_file: text_of(self.config_file),
            project_path: text_of(self.project_path),
            project: text_of(self.project),
            system: text_of(self.system),
        }
    }
}

impl Clone for Args {
    fn clone(&self) -> (copy: Self)
        ensures
            copy@ == self@,
    {
        Args {
            config_file: copy_text(&self.config_file),
            project_path: copy_text(&self.project_path),
            project: copy_text(&self.project),
            system: copy_text(&self.system),
        }
    }
}

/// All that an action works with: the choices of the user, the project
/// and the machine as their documents have them, and where these lie.
#[derive(Debug)]
pub struct ProjectContext {
    pub args: Args,
    pub project: ProjectConfig,
    /// The directory of the project.
    pub project_config_path: String,
    pub system_config: SystemConfig,
    pub system_config_path: String,
    /// The system that is active in this invocation.
    pub system: Option<System>,
    /// The directory from which paths without a root are taken.
    pub current_dir: String,
}

/// A `ProjectContext` as a value of mathematics.
pub struct ContextView {
    pub args: ArgsView,
    pub project: ProjectView,
    pub project_config_path: Seq<char>,
    pub system_config: MachineView,
    pub system_config_path: Seq<char>,
    pub system: Option<Seq<char>>,
    pub current_dir: Seq<char>,
}

impl View for ProjectContext {
    type V = ContextView;

    open spec fn view(&self) -> ContextView {
        ContextView {
            args: self.args@,
            project: self.project@,
            project_config_path: self.project_config_path@,
            system_config: self.system_config@,
            system_config_path: self.system_config_path@,
            system: text_of(self.system),
            current_dir: self.current_dir@,
        }
    }
}

/// The project directory that an invocation works in, as far as the
/// command line and the machine's document decide it: the path given, else
/// the place of the project named, else the machine's default.
pub open spec fn chosen_project_path(args: ArgsView, machine: MachineView) -> Option<Seq<char>> {
    if args.project_path is Some {
        args.project_path
    } else if args.project is Some && machine.projects.contains_key(args.project->0) {
        Some(machine.projects[args.project->0].path)
    } else {
        machine.default
    }
}

/// The system that is active: the one given, else the one that the machine
/// keeps for the project, else the project's default.
pub open spec fn chosen_system(args: ArgsView, machine: MachineView, project: ProjectView) -> Option<
    Seq<char>,
> {
    if args.system is Some {
        args.system
    } else if machine.projects.contains_key(project.name) && machine.projects[project.name].system
        is Some {
        machine.projects[project.name].system
    } else {
        project.default
    }
}

impl Args {
    /// The project directory, or document, to work with, as far as the
    /// command line and the machine's document decide it. `None` leaves the
    /// current directory.
    pub fn project_location(&self, system_config: &SystemConfig) -> (path: Option<String>)
        ensures
            text_of(path) == chosen_project_path(self@, system_config@),
    {
        match &self.project_path {
            Some(path) => Some(path.clone()),
            None => {
                let known: Option<&ProjectOutput> = match &self.project {
                    Some(name) => system_config.get_project(name.as_str()),
                    None => None,
                };
                match known {
                    Some(output) => Some(output.path.clone()),
                    None => copy_text(&system_config.default),
                }
            },
        }
    }

    /// The context of an invocation, from the documents that were read:
    /// all is taken as given, and the active system is chosen.
    pub fn try_to_context(
        self,
        system_config_path: String,
        system_config: SystemConfig,
        project_config_path: String,
        project: ProjectConfig,
        current_dir: String,
    ) -> (ctx: ProjectContext)
        ensures
            ctx@ == (ContextView {
                args: self@,
                project: project@,
                project_config_path: project_config_path@,
                system_config: system_config@,
                system_config_path: system_config_path@,
                system: chosen_system(self@, system_config@, project@),
                current_dir: current_dir@,
            }),
    {
        let kept: Option<String> = match system_config.get_project(project.name.as_str()) {
            Some(output) => copy_text(&output.system),
            None => None,
        };
        let system: Option<String> = match &self.system {
            Some(name) => Some(name.clone()),
            None => match kept {
                Some(name) => Some(name),
                None => copy_text(&project.default),
            },
        };
        ProjectContext {
            args: self,
            project,
            project_config_path,
            system_config,
            system_config_path,
            system,
            current_dir,
        }
    }
}

/// Where the document of a project is read from, and the directory that
/// the project then has.
#[derive(Debug)]
pub struct ProjectLocation {
    pub directory: String,
    pub document: String,
}

/// A `ProjectLocation` as a value of mathematics.
pub struct LocationView {
    pub directory: Seq<char>,
    pub document: Seq<char>,
}

impl View for ProjectLocation {
    type V = LocationView;

    open spec fn view(&self) -> LocationView {
        LocationView { directory: self.directory@, document: self.document@ }
    }
}

/// Where the project's document lies. A path that is given names the
/// document itself where a file stands there, and else the directory that
/// holds the document. Where no path is given, the document has to exist in
/// the current directory.
pub open spec fn project_document(
    config_path: Option<Seq<char>>,
    current_dir: Seq<char>,
    fs: Map<Seq<char>, FactsView>,
) -> Result<LocationView, ErrorView> {
    match config_path {
        Some(path) => match observed(fs, path) {
            Err(e) => Err(e),
            Ok(facts) => if facts.canonical is Some && !facts.is_dir {
                match parent_of(path) {
                    Some(directory) => Ok(LocationView { directory, document: path }),
                    None => Err(ErrorView::NoParent { path }),
                }
            } else {
                Ok(LocationView { directory: path, document: joined(path, document_name()) })
            },
        },
        None => {
            let document = joined(current_dir, document_name());
            match observed(fs, document) {
                Err(e) => Err(e),
                Ok(facts) => if facts.canonical is Some {
                    Ok(LocationView { directory: current_dir, document })
                } else {
                    Err(ErrorView::NotFound { path: document })
                },
            }
        },
    }
}

/// Where the project's document lies, decided on what `fs` shows.
pub fn get_project_config(config_path: Option<&str>, current_dir: &str, fs: &Snapshot) -> (out:
    Result<ProjectLocation, ActionError>)
    ensures
        outcome(out) == project_document(view_of(config_path), current_dir@, fs@),
{
    match config_path {
        Some(path) => {
            let facts = observe(fs, path)?;
            if facts.canonical.is_some() && !facts.is_dir {
                match parent(path) {
                    Some(directory) => Ok(
                        ProjectLocation { directory, document: String::from_str(path) },
                    ),
                    None => Err(ActionError::NoParent { path: String::from_str(path) }),
                }
            } else {
                Ok(
                    ProjectLocation {
                        directory: String::from_str(path),
                        document: join(path, ".links.toml"),
                    },
                )
            }
        },
        None => {
            let document = join(current_dir, ".links.toml");
            let facts = observe(fs, document.as_str())?;
            if facts.canonical.is_some() {
                Ok(ProjectLocation { directory: String::from_str(current_dir), document })
            } else {
                Err(ActionError::NotFound { path: document })
            }
        },
    }
}

/// Where the document of the machine comes from.
#[derive(Debug)]
pub enum MachineSource {
    /// Read the document at `path`.
    Read { path: String },
    /// There is none yet: create `directory`, and start with a machine that
    /// knows no project, to be written to `path`.
    Fresh { path: String, directory: String },
}

/// A `MachineSource` as a value of mathematics.
pub enum MachineSourceView {
    Read { path: Seq<char> },
    Fresh { path: Seq<char>, directory: Seq<char> },
}

impl View for MachineSource {
    type V = MachineSourceView;

    open spec fn view(&self) -> MachineSourceView {
        match self {
            MachineSource::Read { path } => MachineSourceView::Read { path: path@ },
            MachineSource::Fresh { path, directory } => MachineSourceView::Fresh {
                path: path@,
                directory: directory@,
            },
        }
    }
}

/// Where the document of the machine comes from. A path that is given is
/// read. Else the document is looked for in the configuration directory
/// `usual`: it is read under its real path where it exists, and started
/// afresh where it does not. Without a configuration directory there is
/// nowhere to look.
pub open spec fn machine_document(
    config_path: Option<Seq<char>>,
    usual: Option<Seq<char>>,
    fs: Map<Seq<char>, FactsView>,
) -> Result<MachineSourceView, ErrorView> {
    match config_path {
        Some(path) => Ok(MachineSourceView::Read { path }),
        None => match usual {
            None => Err(ErrorView::NotFound { path: machine_document_name() }),
            Some(directory) => {
                let path = joined(directory, machine_document_name());
                match observed(fs, path) {
                    Err(e) => Err(e),
                    Ok(facts) => match facts.canonical {
                        Some(found) => Ok(MachineSourceView::Read { path: found }),
                        None => Ok(MachineSourceView::Fresh { path, directory }),
                    },
                }
            },
        },
    }
}

/// Where the document of the machine comes from, decided on the
/// configuration directory `usual` and on what `fs` shows.
pub fn choose_sys_config(config_path: Option<&str>, usual: Option<String>, fs: &Snapshot) -> (out:
    Result<MachineSource, ActionError>)
    ensures
        outcome(out) == machine_document(view_of(config_path), text_of(usual), fs@),
{
    match config_path {
        Some(path) => Ok(MachineSource::Read { path: String::from_str(path) }),
        None => match usual {
            None => Err(ActionError::NotFound { path: String::from_str("config.toml") }),
            Some(directory) => {
                let path = join(directory.as_str(), "config.toml");
                let facts = observe(fs, path.as_str())?;
                match &facts.canonical {
                    Some(found) => Ok(MachineSource::Read { path: found.clone() }),
                    None => Ok(MachineSource::Fresh { path, directory }),
                }
            },
        },
    }
}

/// Calls `directories::ProjectDirs::from` with the qualifier, organisation
/// and name of a program. What comes back depends on the machine and on
/// the user; nothing is claimed of it.
#[verifier::external_body]
fn program_dirs(qualifier: &str, organization: &str, application: &str) -> (dirs: Option<
    ProjectDirs,
>) {
    ProjectDirs::from(qualifier, organization, application)
}

/// Calls `directories::ProjectDirs::config_dir` and hands the path back as
/// text. Nothing is claimed of it.
#[verifier::external_body]
fn config_dir_of(dirs: &ProjectDirs) -> (directory: String) {
    dirs.config_dir().to_string_lossy().into_owned()
}

/// The configuration directory that this program has on this machine, if
/// the machine names one: the one that the machine keeps for the program
/// `dotfile-sync` of the organisation `AusCyber` under the qualifier `com`.
pub fn get_config_loc() -> (directory: Option<String>) {
    match program_dirs("com", "AusCyber", "dotfile-sync") {
        Some(dirs) => Some(config_dir_of(&dirs)),
        None => None,
    }
}

/// Where the document of the machine comes from: `choose_sys_config` on
/// the configuration directory of this machine.
pub fn get_sys_config(config_path: Option<&str>, fs: &Snapshot) -> (out: Result<
    MachineSource,
    ActionError,
>)
    ensures
        exists|usual: Option<Seq<char>>|
            outcome(out) == #[trigger] machine_document(view_of(config_path), usual, fs@),
{
    let usual = get_config_loc();
    let out = choose_sys_config(config_path, usual, fs);
    out
}

/// `std::time::Instant`: a moment, carried from the clock to the hasher.
/// Nothing is known of what is in it.
#[verifier::external_type_specification]
#[verifier::external_body]
pub struct ExInstant(std::time::Instant);

/// `directories::ProjectDirs`: the directories that the machine gives a
/// program. Nothing is known of what is in it.
#[verifier::external_type_specification]
#[verifier::external_body]
pub struct ExProjectDirs(directories::ProjectDirs);

} // verus!

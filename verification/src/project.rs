//! The namespace `$proj`: the directories of a project, which a group of the
//! form `(qualifier.organization.application)` names.

use crate::envpath_core::{EnvPath, AND_SD};
use crate::host::Host;
use crate::remix::{project_yields, project_yields_either, remix_or_none};
use crate::rules::{
    any_disk, checks_of, flow_text, flow_value, lemma_full_width_alternatives,
    lemma_half_width_alternatives, opt_text, Flow,
};
use crate::separator::{
    get_question_mark_separator, half_width, half_width_char, lemma_detected,
    lemma_half_width_colon, lemma_half_width_question_mark, lemma_half_width_same,
    question_mark_of, FULL_COLON, FWQM, HALF_COLON, HWQM, NO_SEPARATOR,
};
use crate::system::{join_path, joined, path_exists};
use crate::text::{
    contains_char, end_of_last, find, find_last, first_index, lemma_end_of_last,
    lemma_end_of_last_renamed, lemma_first_index, lemma_first_index_renamed, lemma_split_first,
    lemma_split_whole, split, split_on, split_trimmed, text_eq, trim, trimmed, views,
};
use core::ops::ControlFlow;
use directories::ProjectDirs;
use vstd::prelude::*;

verus! {

/// `directories::ProjectDirs`: the directories that the platform assigns to
/// one project. What it holds is read through its methods alone.
#[verifier::external_type_specification]
#[verifier::external_body]
pub struct ExProjectDirs(ProjectDirs);

/// The three names that identify a project, as texts.
pub struct ProjectId {
    /// The reverse domain that the project belongs to, such as `org`.
    pub qualifier: Seq<char>,
    /// The organization behind the project; may be empty.
    pub organization: Seq<char>,
    /// The application itself.
    pub application: Seq<char>,
}

/// The three names that identify a project.
#[derive(Debug, Clone, PartialEq, Eq)]
pub struct ProjectName {
    /// The reverse domain that the project belongs to, such as `org`.
    pub qualifier: String,
    /// The organization behind the project; may be empty.
    pub organization: String,
    /// The application itself.
    pub application: String,
}

impl View for ProjectName {
    type V = ProjectId;

    open spec fn view(&self) -> ProjectId {
        ProjectId {
            qualifier: self.qualifier@,
            organization: self.organization@,
            application: self.application@,
        }
    }
}

/// Why no project directories can be had.
#[derive(Debug, Clone, Copy, PartialEq, Eq)]
pub enum ProjectError {
    /// The platform assigns no directories to projects, or the user has no
    /// home directory.
    Unsupported,
}

/// The directories of a project that `$proj` knows, each with the names it
/// goes by.
#[derive(Clone, Copy, Debug, PartialEq, Eq)]
pub enum ProjectDir {
    /// `path`.
    Path,
    /// `cache`.
    Cache,
    /// `cfg`, `config`.
    Config,
    /// `data`.
    Data,
    /// `local-data`, `local_data`.
    LocalData,
    /// `local-cfg`, `local_cfg`, `local_config`.
    LocalConfig,
    /// `pref`, `preference`.
    Preference,
    /// `runtime`.
    Runtime,
    /// `state`.
    State,
    /// `cli-data`, `cli_data`.
    CliData,
    /// `cli-cfg`, `cli_cfg`, `cli_config`.
    CliConfig,
    /// `cli-cache`, `cli_cache`.
    CliCache,
    /// `local-low`, `local_low`; on Windows only.
    LocalLow,
    /// `empty`.
    Empty,
}

/// The project directory that `ident` names.
pub open spec fn project_dir_of(ident: Seq<char>) -> Option<ProjectDir> {
    if ident == "path"@ {
        Some(ProjectDir::Path)
    } else if ident == "cache"@ {
        Some(ProjectDir::Cache)
    } else if ident == "cfg"@ || ident == "config"@ {
        Some(ProjectDir::Config)
    } else if ident == "data"@ {
        Some(ProjectDir::Data)
    } else if ident == "local-data"@ || ident == "local_data"@ {
        Some(ProjectDir::LocalData)
    } else if ident == "local-cfg"@ || ident == "local_cfg"@ || ident == "local_config"@ {
        Some(ProjectDir::LocalConfig)
    } else if ident == "pref"@ || ident == "preference"@ {
        Some(ProjectDir::Preference)
    } else if ident == "runtime"@ {
        Some(ProjectDir::Runtime)
    } else if ident == "state"@ {
        Some(ProjectDir::State)
    } else if ident == "cli-data"@ || ident == "cli_data"@ {
        Some(ProjectDir::CliData)
    } else if ident == "cli-cfg"@ || ident == "cli_cfg"@ || ident == "cli_config"@ {
        Some(ProjectDir::CliConfig)
    } else if ident == "cli-cache"@ || ident == "cli_cache"@ {
        Some(ProjectDir::CliCache)
    } else if ident == "local-low"@ || ident == "local_low"@ {
        Some(ProjectDir::LocalLow)
    } else if ident == "empty"@ {
        Some(ProjectDir::Empty)
    } else {
        None
    }
}

/// The texts of `parts` one after the other.
pub open spec fn concat_all(parts: Seq<Seq<char>>) -> Seq<char>
    decreases parts.len(),
{
    if parts.len() == 0 {
        Seq::<char>::empty()
    } else {
        concat_all(parts.drop_last()) + parts.last()
    }
}

/// The project that the dotted parts of a group name. One part is the
/// application; of two, the first is the qualifier and the second the
/// application; of three, the one in the middle is the organization; any
/// further parts belong to the application.
pub open spec fn project_of(parts: Seq<Seq<char>>) -> ProjectId
    recommends
        parts.len() > 0,
{
    if parts.len() == 1 {
        ProjectId {
            qualifier: Seq::<char>::empty(),
            organization: Seq::<char>::empty(),
            application: parts[0],
        }
    } else if parts.len() == 2 {
        ProjectId {
            qualifier: parts[0],
            organization: Seq::<char>::empty(),
            application: parts[1],
        }
    } else {
        ProjectId {
            qualifier: parts[0],
            organization: parts[1],
            application: concat_all(parts.skip(2)),
        }
    }
}

/// The project that the text `c0` names: what stands between its first `(`
/// and its last `)`, split at the dots, each part trimmed. A text without
/// such a pair of parentheses names no project.
pub open spec fn project_name(c0: Seq<char>) -> Option<ProjectId> {
    let open = first_index(c0, '(');
    let close = end_of_last(c0, ')') - 1;
    if open < c0.len() && 0 <= close && open < close {
        Some(project_of(split_trimmed(c0.subrange(open + 1, close), '.')))
    } else {
        None
    }
}

/// `x` and `y` with a dot between them; an empty text brings no dot.
pub open spec fn dotted(x: Seq<char>, y: Seq<char>) -> Seq<char> {
    if x.len() == 0 {
        y
    } else if y.len() == 0 {
        x
    } else {
        x + seq!['.'] + y
    }
}

/// The name of a project in one text: those of its three names that are not
/// empty, with dots between them.
pub open spec fn project_label(id: ProjectId) -> Seq<char> {
    dotted(dotted(id.qualifier, id.organization), id.application)
}

/// The path made of the root, `second`, `data`, the project's name and,
/// where there is one, `leaf`, joined in this order onto the empty path.
pub open spec fn android_path(
    root: Seq<char>,
    second: Seq<char>,
    name: Seq<char>,
    leaf: Option<Seq<char>>,
) -> Seq<char> {
    let base = joined(
        joined(joined(joined(Seq::<char>::empty(), root), second), "data"@),
        name,
    );
    match leaf {
        Some(last) => joined(base, last),
        None => base,
    }
}

/// Whether a lookup of `dir` for the project called `name` may give `value`
/// on `host`, where `has_dirs` says whether the platform assigned
/// directories to the project. A directory that the platform assigns to every
/// project is present exactly where it assigned any; which text it is, the
/// platform's own tables decide.
pub open spec fn project_dir_may(
    dir: ProjectDir,
    name: Seq<char>,
    has_dirs: bool,
    host: Host,
    value: Option<Seq<char>>,
) -> bool {
    match dir {
        ProjectDir::Empty => value == Some(Seq::<char>::empty()),
        ProjectDir::Path => value is Some && (host.android() || !has_dirs ==> value->0 == name),
        ProjectDir::Cache => if host.android() {
            value == Some(android_path("/"@, "data"@, name, Some("cache"@)))
        } else {
            value is Some <==> has_dirs
        },
        ProjectDir::Config | ProjectDir::Preference => if host.android() {
            value == Some(android_path("/"@, "data"@, name, Some("files"@)))
        } else {
            value is Some <==> has_dirs
        },
        ProjectDir::Data => if host.android() {
            value == Some(android_path("/"@, "data"@, name, None))
        } else {
            value is Some <==> has_dirs
        },
        ProjectDir::LocalData => if host.android() {
            value == Some(android_path(AND_SD@, "Android"@, name, None))
        } else {
            value is Some <==> has_dirs
        },
        ProjectDir::LocalConfig => if host.android() {
            value == Some(android_path(AND_SD@, "Android"@, name, Some("files"@)))
        } else {
            value is Some <==> has_dirs
        },
        ProjectDir::LocalLow => !host.windows() ==> value is None,
        ProjectDir::Runtime | ProjectDir::State => !has_dirs ==> value is None,
        ProjectDir::CliData | ProjectDir::CliConfig | ProjectDir::CliCache => value is Some
            <==> has_dirs,
    }
}

/// `directories::ProjectDirs::from`: the directories that the platform assigns
/// to the project of these three names, or nothing where the user has no home
/// directory. Nothing is promised of the answer.
#[verifier::external_body]
fn project_dirs_from(qualifier: &str, organization: &str, application: &str) -> (dirs: Option<
    ProjectDirs,
>) {
    ProjectDirs::from(qualifier, organization, application)
}

/// `directories::ProjectDirs::project_path`: the fragment of a path that
/// stands for the project, as `dirs` holds it. Nothing is promised of the
/// text.
#[verifier::external_body]
fn project_path(dirs: &ProjectDirs) -> (path: String) {
    dirs.project_path().to_string_lossy().into_owned()
}

/// `directories::ProjectDirs::cache_dir`: the project's directory for cached
/// files, as `dirs` holds it. Nothing is promised of the text.
#[verifier::external_body]
fn cache_dir(dirs: &ProjectDirs) -> (path: String) {
    dirs.cache_dir().to_string_lossy().into_owned()
}

/// `directories::ProjectDirs::config_dir`: the project's directory for
/// configuration, as `dirs` holds it. Nothing is promised of the text.
#[verifier::external_body]
fn config_dir(dirs: &ProjectDirs) -> (path: String) {
    dirs.config_dir().to_string_lossy().into_owned()
}

/// `directories::ProjectDirs::config_local_dir`: the project's directory for
/// configuration that stays on this machine, as `dirs` holds it. Nothing is
/// promised of the text.
#[verifier::external_body]
fn config_local_dir(dirs: &ProjectDirs) -> (path: String) {
    dirs.config_local_dir().to_string_lossy().into_owned()
}

/// `directories::ProjectDirs::data_dir`: the project's directory for data, as
/// `dirs` holds it. Nothing is promised of the text.
#[verifier::external_body]
fn data_dir(dirs: &ProjectDirs) -> (path: String) {
    dirs.data_dir().to_string_lossy().into_owned()
}

/// `directories::ProjectDirs::data_local_dir`: the project's directory for
/// data that stays on this machine, as `dirs` holds it. Nothing is promised of
/// the text.
#[verifier::external_body]
fn data_local_dir(dirs: &ProjectDirs) -> (path: String) {
    dirs.data_local_dir().to_string_lossy().into_owned()
}

/// `directories::ProjectDirs::preference_dir`: the project's directory for
/// preferences, as `dirs` holds it. Nothing is promised of the text.
#[verifier::external_body]
fn preference_dir(dirs: &ProjectDirs) -> (path: String) {
    dirs.preference_dir().to_string_lossy().into_owned()
}

/// `directories::ProjectDirs::runtime_dir`: the project's directory for
/// runtime files, where the platform has one. Nothing is promised of the
/// answer.
#[verifier::external_body]
fn runtime_dir(dirs: &ProjectDirs) -> (path: Option<String>) {
    match dirs.runtime_dir() {
        Some(path) => Some(path.to_string_lossy().into_owned()),
        None => None,
    }
}

/// `directories::ProjectDirs::state_dir`: the project's directory for state
/// files, where the platform has one. Nothing is promised of the answer.
#[verifier::external_body]
fn state_dir(dirs: &ProjectDirs) -> (path: Option<String>) {
    match dirs.state_dir() {
        Some(path) => Some(path.to_string_lossy().into_owned()),
        None => None,
    }
}

/// `directories::BaseDirs::new` and, of what it gives, `data_local_dir`: the
/// directory for the user's data that stays on this machine, or nothing where
/// the user has no home directory. Nothing is promised of the answer.
#[verifier::external_body]
fn base_data_local_dir() -> (path: Option<String>) {
    match directories::BaseDirs::new() {
        Some(base) => Some(base.data_local_dir().to_string_lossy().into_owned()),
        None => None,
    }
}

/// A split text has at least one piece.
pub proof fn lemma_split_len(s: Seq<char>, c: char)
    ensures
        split(s, c).len() >= 1,
    decreases s.len(),
{
    let i = first_index(s, c);
    if 0 <= i < s.len() {
        lemma_split_len(s.skip(i + 1), c);
    }
}

/// Builds the path of a project's directory on Android.
fn android_dir(root: &str, second: &str, name: &str, leaf: Option<&str>) -> (path: String)
    ensures
        path@ == android_path(
            root@,
            second@,
            name@,
            match leaf {
                Some(last) => Some(last@),
                None => None,
            },
        ),
{
    let empty = String::new();
    let first = join_path(empty.as_str(), root);
    let two = join_path(first.as_str(), second);
    let three = join_path(two.as_str(), "data");
    let base = join_path(three.as_str(), name);
    assert(empty@ =~= Seq::<char>::empty());
    match leaf {
        Some(last) => join_path(base.as_str(), last),
        None => base,
    }
}

/// The result of asking for project directories: the directories, or the
/// reason why there are none.
pub fn project_result(found: Option<ProjectDirs>) -> (result: Result<ProjectDirs, ProjectError>)
    ensures
        match found {
            Some(dirs) => result == Ok::<ProjectDirs, ProjectError>(dirs),
            None => result == Err::<ProjectDirs, ProjectError>(ProjectError::Unsupported),
        },
{
    match found {
        Some(dirs) => Ok(dirs),
        None => Err(ProjectError::Unsupported),
    }
}

impl ProjectError {
    /// The reason in words.
    pub fn message(&self) -> (text: &'static str)
        ensures
            text@ == "Cannot generate ProjectDirs for your platform."@,
    {
        "Cannot generate ProjectDirs for your platform."
    }
}

/// Reads the project that `c0` names from between its first `(` and its last
/// `)`.
pub fn get_project_name(c0: &str) -> (name: Option<ProjectName>)
    ensures
        match name {
            Some(found) => project_name(c0@) == Some(found@),
            None => project_name(c0@) is None,
        },
{
    proof {
        lemma_first_index(c0@, '(');
        lemma_end_of_last(c0@, ')');
    }
    let open = match find(c0, '(') {
        Some(at) => at,
        None => {
            return None;
        },
    };
    let close = match find_last(c0, ')') {
        Some(at) => at,
        None => {
            return None;
        },
    };
    if close <= open {
        return None;
    }
    let parts = split_on(c0.substring_char(open + 1, close), '.');
    let ghost texts = split_trimmed(c0@.subrange(open + 1, close as int), '.');
    proof {
        lemma_split_len(c0@.subrange(open + 1, close as int), '.');
        assert(views(parts@).len() == parts@.len());
    }
    let n = parts.len();
    let qualifier = parts[0].to_owned();
    assert(qualifier@ == texts[0]);
    if n == 1 {
        Some(
            ProjectName {
                qualifier: String::new(),
                organization: String::new(),
                application: qualifier,
            },
        )
    } else if n == 2 {
        assert(parts[1]@ == texts[1]);
        Some(
            ProjectName {
                qualifier: qualifier,
                organization: String::new(),
                application: parts[1].to_owned(),
            },
        )
    } else {
        assert(parts[1]@ == texts[1]);
        let organization = parts[1].to_owned();
        let mut application = String::new();
        let mut i: usize = 2;
        assert(texts.skip(2).take(0) =~= Seq::<Seq<char>>::empty());
        while i < n
            invariant
                2 <= i <= n == parts.len(),
                views(parts@) == texts,
                application@ == concat_all(texts.skip(2).take(i - 2)),
            decreases n - i,
        {
            proof {
                let done = texts.skip(2).take(i - 2);
                let more = texts.skip(2).take(i - 1);
                assert(more.drop_last() =~= done);
                assert(more.last() == parts[i as int]@);
            }
            application = application.concat(parts[i]);
            i += 1;
        }
        assert(texts.skip(2).take(n - 2) =~= texts.skip(2));
        Some(
            ProjectName {
                qualifier: qualifier,
                organization: organization,
                application: application,
            },
        )
    }
}

/// `x` and `y` with a dot between them; an empty text brings no dot.
fn with_dot(x: String, y: &str) -> (text: String)
    ensures
        text@ == dotted(x@, y@),
{
    if x.as_str().is_empty() {
        y.to_owned()
    } else if y.is_empty() {
        x
    } else {
        proof {
            reveal_strlit(".");
            assert("."@ =~= seq!['.']);
        }
        x.concat(".").concat(y)
    }
}

impl ProjectName {
    /// The name of the project in one text: those of its three names that
    /// are not empty, with dots between them.
    pub fn label(&self) -> (text: String)
        ensures
            text@ == project_label(self@),
    {
        let first = with_dot(self.qualifier.clone(), self.organization.as_str());
        with_dot(first, self.application.as_str())
    }
}

/// Reads the project that `chunk` names, and asks the platform for its
/// directories: the project's name in one text, and the directories where the
/// platform assigns any.
pub fn set_proj_name_opt_tuple(chunk: &str) -> (found: Option<(String, Option<ProjectDirs>)>)
    ensures
        match found {
            Some((label, dirs)) => project_name(chunk@) matches Some(id) && label@
                == project_label(id),
            None => project_name(chunk@) is None,
        },
{
    match get_project_name(chunk) {
        Some(name) => {
            let dirs = project_dirs_from(
                name.qualifier.as_str(),
                name.organization.as_str(),
                name.application.as_str(),
            );
            Some((name.label(), dirs))
        },
        None => None,
    }
}

/// The text that stands for the project in a path: its name on Android and
/// where the platform assigned no directories, else the fragment that the
/// platform made of it.
pub fn set_proj_path(name: &str, proj: Option<&ProjectDirs>, host: &Host) -> (path: Option<String>)
    ensures
        path is Some,
        host.android() || proj is None ==> path->0@ == name@,
{
    if host.is_android() {
        Some(name.to_owned())
    } else {
        match proj {
            Some(dirs) => Some(project_path(dirs)),
            None => Some(name.to_owned()),
        }
    }
}

/// The directory that `find` reads from the directories of a project, where
/// the platform assigned any; on Android the path made of `root`, `second`,
/// `data`, the project's name and `leaf` stands for it, and `find` is not
/// asked.
pub fn set_proj_dir<F: FnOnce(&ProjectDirs) -> String>(
    proj: Option<&ProjectDirs>,
    find: F,
    root: &str,
    second: &str,
    name: &str,
    leaf: Option<&str>,
    host: &Host,
) -> (dir: Option<String>)
    requires
        forall|dirs: &ProjectDirs| call_requires(find, (dirs,)),
    ensures
        host.android() ==> opt_text(dir) == Some(
            android_path(
                root@,
                second@,
                name@,
                match leaf {
                    Some(last) => Some(last@),
                    None => None,
                },
            ),
        ),
        !host.android() ==> match proj {
            Some(dirs) => dir is Some && call_ensures(find, (dirs,), dir->0),
            None => dir is None,
        },
{
    if host.is_android() {
        Some(android_dir(root, second, name, leaf))
    } else {
        match proj {
            Some(dirs) => Some(find(dirs)),
            None => None,
        }
    }
}

impl<'r> EnvPath<'r> {
    /// Asks the platform for the directories of the project of these three
    /// names. It fails where the platform assigns none.
    pub fn new_project(qual: &str, org: &str, app: &str) -> (result: Result<
        ProjectDirs,
        ProjectError,
    >)
        ensures
            result is Err ==> result->Err_0 == ProjectError::Unsupported,
    {
        project_result(project_dirs_from(qual, org, app))
    }
}

impl ProjectDir {
    /// The project directory that `ident` names.
    pub fn named(ident: &str) -> (found: Option<ProjectDir>)
        ensures
            found == project_dir_of(ident@),
    {
        if text_eq(ident, "path") {
            Some(ProjectDir::Path)
        } else if text_eq(ident, "cache") {
            Some(ProjectDir::Cache)
        } else if text_eq(ident, "cfg") || text_eq(ident, "config") {
            Some(ProjectDir::Config)
        } else if text_eq(ident, "data") {
            Some(ProjectDir::Data)
        } else if text_eq(ident, "local-data") || text_eq(ident, "local_data") {
            Some(ProjectDir::LocalData)
        } else if text_eq(ident, "local-cfg")
            || text_eq(ident, "local_cfg")
            || text_eq(ident, "local_config") {
            Some(ProjectDir::LocalConfig)
        } else if text_eq(ident, "pref") || text_eq(ident, "preference") {
            Some(ProjectDir::Preference)
        } else if text_eq(ident, "runtime") {
            Some(ProjectDir::Runtime)
        } else if text_eq(ident, "state") {
            Some(ProjectDir::State)
        } else if text_eq(ident, "cli-data") || text_eq(ident, "cli_data") {
            Some(ProjectDir::CliData)
        } else if text_eq(ident, "cli-cfg")
            || text_eq(ident, "cli_cfg")
            || text_eq(ident, "cli_config") {
            Some(ProjectDir::CliConfig)
        } else if text_eq(ident, "cli-cache") || text_eq(ident, "cli_cache") {
            Some(ProjectDir::CliCache)
        } else if text_eq(ident, "local-low") || text_eq(ident, "local_low") {
            Some(ProjectDir::LocalLow)
        } else if text_eq(ident, "empty") {
            Some(ProjectDir::Empty)
        } else {
            None
        }
    }

    /// Finds the directory of the project called `name`, whose directories
    /// on this platform are `proj`.
    pub fn locate(self, name: &str, proj: Option<&ProjectDirs>, host: &Host) -> (dir: Option<
        String,
    >)
        ensures
            project_dir_may(self, name@, proj is Some, *host, opt_text(dir)),
    {
        match self {
            ProjectDir::Path => set_proj_path(name, proj, host),
            ProjectDir::Cache => set_proj_dir(
                proj,
                cache_dir,
                "/",
                "data",
                name,
                Some("cache"),
                host,
            ),
            ProjectDir::Config => set_proj_dir(
                proj,
                config_dir,
                "/",
                "data",
                name,
                Some("files"),
                host,
            ),
            ProjectDir::Data => set_proj_dir(proj, data_dir, "/", "data", name, None, host),
            ProjectDir::LocalData => set_proj_dir(
                proj,
                data_local_dir,
                AND_SD,
                "Android",
                name,
                None,
                host,
            ),
            ProjectDir::LocalConfig => set_proj_dir(
                proj,
                config_local_dir,
                AND_SD,
                "Android",
                name,
                Some("files"),
                host,
            ),
            ProjectDir::Preference => set_proj_dir(
                proj,
                preference_dir,
                "/",
                "data",
                name,
                Some("files"),
                host,
            ),
            ProjectDir::Runtime => match proj {
                Some(dirs) => runtime_dir(dirs),
                None => None,
            },
            ProjectDir::State => match proj {
                Some(dirs) => state_dir(dirs),
                None => None,
            },
            ProjectDir::CliData => match proj {
                Some(dirs) => Some(data_local_dir(dirs)),
                None => None,
            },
            ProjectDir::CliConfig => match proj {
                Some(dirs) => Some(config_local_dir(dirs)),
                None => None,
            },
            ProjectDir::CliCache => match proj {
                Some(dirs) => Some(cache_dir(dirs)),
                None => None,
            },
            ProjectDir::LocalLow => {
                if host.is_windows() {
                    match (base_data_local_dir(), set_proj_path(name, proj, host)) {
                        (Some(local), Some(path)) => {
                            let low = join_path(local.as_str(), "LocalLow");
                            Some(join_path(low.as_str(), path.as_str()))
                        },
                        _ => None,
                    }
                } else {
                    None
                }
            },
            ProjectDir::Empty => Some(String::new()),
        }
    }
}

/// Resolves `ident` for the project called `name`, whose directories on this
/// platform are `proj`: a project directory by its name, or a remix
/// expression.
pub fn match_proj_dirs(ident: &str, name: &str, proj: Option<&ProjectDirs>, host: &Host) -> (value:
    Option<String>)
    ensures
        project_yields(name@, proj is Some, ident@, *host, opt_text(value)),
    decreases ident@.len(), 3int,
{
    match ProjectDir::named(ident) {
        Some(dir) => dir.locate(name, proj, host),
        None => remix_or_none(ident, host),
    }
}

/// The key of an alternative of a `$proj` chain: what stands behind its last
/// colon, of either width, trimmed; the whole alternative where it holds no
/// colon.
pub open spec fn project_key(x: Seq<char>) -> Seq<char> {
    let half = end_of_last(x, HALF_COLON);
    let full = end_of_last(x, FULL_COLON);
    trim(
        x.skip(
            if half >= full {
                half
            } else {
                full
            },
        ),
    )
}

/// The text that names the project of the alternative `x`, the one at
/// `index` in its chain: `x` itself where it opens a group with a `(`; else
/// `first`, the tag of the expression, for the alternative at the head of the
/// chain, and `last`, the text that named the project before, for any other.
pub open spec fn group_at(index: int, x: Seq<char>, first: Seq<char>, last: Seq<char>) -> Seq<
    char,
> {
    if x.contains('(') {
        x
    } else if index == 0 {
        first
    } else {
        last
    }
}

/// Whether a walk over the alternatives of a `$proj` chain from `index` on
/// may end in `flow`. The walk holds `held` and remembers `last`, the text
/// that named the project of the alternative before; `answers(n, k, v)` says
/// that the project of the names `n` may answer `v` for the key `k`, and
/// `on_disk(p, b)` that the file system may answer `b` for the path `p`.
///
/// The steps are those of any chain, but that an alternative is looked up in
/// the project of its group, and that the walk stops with nothing where the
/// group names no project.
pub open spec fn project_flow(
    segments: Seq<Seq<char>>,
    index: int,
    last: Seq<char>,
    first: Seq<char>,
    held: Option<Seq<char>>,
    answers: spec_fn(ProjectId, Seq<char>, Option<Seq<char>>) -> bool,
    on_disk: spec_fn(Seq<char>, bool) -> bool,
    flow: Flow,
) -> bool
    decreases segments.len() - index,
{
    if index < 0 || index >= segments.len() {
        flow == Flow::Continue(held)
    } else {
        let x = segments[index];
        match held {
            None => {
                if x.len() == 0 {
                    project_flow(segments, index + 1, last, first, None, answers, on_disk, flow)
                } else {
                    let group = group_at(index, x, first, last);
                    match project_name(group) {
                        Some(id) => exists|v: Option<Seq<char>>| #[trigger]
                            answers(id, project_key(x), v) && project_flow(
                                segments,
                                index + 1,
                                group,
                                first,
                                v,
                                answers,
                                on_disk,
                                flow,
                            ),
                        None => flow == Flow::Break(None),
                    }
                }
            },
            Some(path) => {
                if x.len() > 0 {
                    flow == Flow::Break(held)
                } else {
                    ||| on_disk(path, true) && flow == Flow::Break(held)
                    ||| on_disk(path, false) && project_flow(
                        segments,
                        index + 1,
                        last,
                        first,
                        None,
                        answers,
                        on_disk,
                        flow,
                    )
                }
            },
        }
    }
}

/// What the projects may answer on `host`, as a relation between the names
/// of a project, a key and a value.
pub open spec fn project_answers(host: Host) -> spec_fn(
    ProjectId,
    Seq<char>,
    Option<Seq<char>>,
) -> bool {
    |id: ProjectId, key: Seq<char>, value: Option<Seq<char>>|
        project_yields_either(project_label(id), key, host, value)
}

/// The answers that a provider of project directories may give: `(n, k, v)`
/// is among them where some call of `lookup` on a project of the names `n`
/// and the key `k` may return a value with the text `v`.
pub open spec fn project_answers_of<G: Fn(&ProjectName, &str) -> Option<String>>(
    lookup: G,
) -> spec_fn(ProjectId, Seq<char>, Option<Seq<char>>) -> bool {
    |id: ProjectId, key: Seq<char>, value: Option<Seq<char>>|
        exists|name: &ProjectName, k: &str, o: Option<String>|
            name@ == id && k@ == key && #[trigger] call_ensures(lookup, (name, k), o) && opt_text(
                o,
            ) == value
}

/// Whether the chain `remain` of a `$proj` expression with the tag `first`
/// may resolve to `value`, where `separator` separates its alternatives.
pub open spec fn project_chain_resolves(
    first: Seq<char>,
    remain: Seq<char>,
    separator: char,
    answers: spec_fn(ProjectId, Seq<char>, Option<Seq<char>>) -> bool,
    on_disk: spec_fn(Seq<char>, bool) -> bool,
    value: Option<Seq<char>>,
) -> bool {
    exists|flow: Flow|
        flow_value(flow) == value && #[trigger] project_flow(
            split_trimmed(remain, separator),
            0,
            Seq::<char>::empty(),
            first,
            None,
            answers,
            on_disk,
            flow,
        )
}

/// Whether the `$proj` expression with the tag `first` and the chain `remain`
/// may resolve to `value`: a chain without a question mark is one key of the
/// project that the tag names; any other chain is walked.
pub open spec fn project_handled(
    first: Seq<char>,
    remain: Seq<char>,
    host: Host,
    value: Option<Seq<char>>,
) -> bool {
    match question_mark_of(remain) {
        Some(mark) => project_chain_resolves(
            first,
            remain,
            mark,
            project_answers(host),
            any_disk(),
            value,
        ),
        None => match project_name(first) {
            Some(id) => project_yields_either(project_label(id), remain, host, value),
            None => value is None,
        },
    }
}

/// The key of an alternative of a `$proj` chain.
pub fn project_key_of<'a>(x: &'a str) -> (key: &'a str)
    ensures
        key@ == project_key(x@),
{
    let n = x.unicode_len();
    proof {
        lemma_end_of_last(x@, HALF_COLON);
        lemma_end_of_last(x@, FULL_COLON);
    }
    let half = match find_last(x, HALF_COLON) {
        Some(at) => at + 1,
        None => 0,
    };
    let full = match find_last(x, FULL_COLON) {
        Some(at) => at + 1,
        None => 0,
    };
    let from = if half >= full {
        half
    } else {
        full
    };
    assert(x@.subrange(from as int, n as int) =~= x@.skip(from as int));
    trimmed(x.substring_char(from, n))
}

/// Walks the chain `remain` of a `$proj` expression whose tag is `first`.
/// Each alternative is looked up in the project of its own group, where it
/// opens one, and else in the project of the alternative before it; the
/// alternative at the head of the chain falls back on the tag. It asks
/// `lookup` for each alternative that is tried, and `probe` whether the path
/// of a value is on disk where `??` demands that.
///
/// `Break` holds the value at which the walk stopped, `Continue` what was
/// held when the alternatives ran out.
pub fn parse_proj_dir_rules_with<G: Fn(&ProjectName, &str) -> Option<String>, E: Fn(&str) -> bool>(
    first: &str,
    remain: &str,
    separator: char,
    lookup: G,
    probe: E,
) -> (flow: ControlFlow<Option<String>, Option<String>>)
    requires
        forall|name: &ProjectName, key: &str| call_requires(lookup, (name, key)),
        forall|p: &str| call_requires(probe, (p,)),
    ensures
        project_flow(
            split_trimmed(remain@, separator),
            0,
            Seq::<char>::empty(),
            first@,
            None,
            project_answers_of(lookup),
            checks_of(probe),
            flow_text(flow),
        ),
{
    let segments = split_on(remain, separator);
    let ghost all = split_trimmed(remain@, separator);
    let ghost answers = project_answers_of(lookup);
    let ghost on_disk = checks_of(probe);
    let mut last_chunk: &str = "";
    let mut held: Option<String> = None;
    let mut i: usize = 0;
    proof {
        reveal_strlit("");
        assert(last_chunk@ =~= Seq::<char>::empty());
    }
    while i < segments.len()
        invariant
            i <= segments.len(),
            views(segments@) == all,
            all == split_trimmed(remain@, separator),
            answers == project_answers_of(lookup),
            on_disk == checks_of(probe),
            forall|name: &ProjectName, key: &str| call_requires(lookup, (name, key)),
            forall|p: &str| call_requires(probe, (p,)),
            forall|flow: Flow| #[trigger]
                project_flow(
                    all,
                    i as int,
                    last_chunk@,
                    first@,
                    opt_text(held),
                    answers,
                    on_disk,
                    flow,
                ) ==> project_flow(
                    all,
                    0,
                    Seq::<char>::empty(),
                    first@,
                    None,
                    answers,
                    on_disk,
                    flow,
                ),
        decreases segments.len() - i,
    {
        let x: &str = segments[i];
        let ghost before = opt_text(held);
        let ghost last_before = last_chunk@;
        proof {
            assert(all.len() == segments.len());
            assert(all[i as int] == x@);
        }
        match held {
            None => {
                if x.is_empty() {
                    held = None;
                } else {
                    let c0: &str = if contains_char(x, '(') {
                        x
                    } else if i == 0 {
                        first
                    } else {
                        last_chunk
                    };
                    assert(c0@ == group_at(i as int, x@, first@, last_before));
                    last_chunk = c0;
                    match get_project_name(c0) {
                        Some(name) => {
                            let ident = project_key_of(x);
                            let answer = lookup(&name, ident);
                            proof {
                                let id = project_name(c0@)->0;
                                assert(id == name@);
                                assert(call_ensures(lookup, (&name, ident), answer));
                                assert(answers(id, project_key(x@), opt_text(answer)));
                            }
                            held = answer;
                        },
                        None => {
                            assert(project_flow(
                                all,
                                i as int,
                                last_before,
                                first@,
                                before,
                                answers,
                                on_disk,
                                ControlFlow::Break(None),
                            ));
                            return ControlFlow::Break(None);
                        },
                    }
                }
            },
            Some(path) => {
                if !x.is_empty() {
                    assert(project_flow(
                        all,
                        i as int,
                        last_before,
                        first@,
                        before,
                        answers,
                        on_disk,
                        ControlFlow::Break(before),
                    ));
                    return ControlFlow::Break(Some(path));
                }
                let there = probe(path.as_str());
                assert(on_disk(path@, there));
                if there {
                    assert(project_flow(
                        all,
                        i as int,
                        last_before,
                        first@,
                        before,
                        answers,
                        on_disk,
                        ControlFlow::Break(before),
                    ));
                    return ControlFlow::Break(Some(path));
                }
                held = None;
            },
        }
        proof {
            assert forall|flow: Flow| #[trigger]
                project_flow(
                    all,
                    i + 1,
                    last_chunk@,
                    first@,
                    opt_text(held),
                    answers,
                    on_disk,
                    flow,
                ) implies project_flow(
                all,
                0,
                Seq::<char>::empty(),
                first@,
                None,
                answers,
                on_disk,
                flow,
            ) by {
                assert(project_flow(
                    all,
                    i as int,
                    last_before,
                    first@,
                    before,
                    answers,
                    on_disk,
                    flow,
                ));
            }
        }
        i += 1;
    }
    proof {
        let end = Flow::Continue(opt_text(held));
        assert(project_flow(
            all,
            i as int,
            last_chunk@,
            first@,
            opt_text(held),
            answers,
            on_disk,
            end,
        ));
    }
    ControlFlow::Continue(held)
}

/// A walk that may end in `flow` may still do so where the projects and the
/// file system may answer more.
pub proof fn lemma_project_flow_widens(
    segments: Seq<Seq<char>>,
    index: int,
    last: Seq<char>,
    first: Seq<char>,
    held: Option<Seq<char>>,
    answers: spec_fn(ProjectId, Seq<char>, Option<Seq<char>>) -> bool,
    on_disk: spec_fn(Seq<char>, bool) -> bool,
    more_answers: spec_fn(ProjectId, Seq<char>, Option<Seq<char>>) -> bool,
    more_on_disk: spec_fn(Seq<char>, bool) -> bool,
    flow: Flow,
)
    requires
        project_flow(segments, index, last, first, held, answers, on_disk, flow),
        forall|id: ProjectId, k: Seq<char>, v: Option<Seq<char>>| #[trigger]
            answers(id, k, v) ==> more_answers(id, k, v),
        forall|p: Seq<char>, b: bool| #[trigger] on_disk(p, b) ==> more_on_disk(p, b),
    ensures
        project_flow(segments, index, last, first, held, more_answers, more_on_disk, flow),
    decreases segments.len() - index,
{
    if 0 <= index < segments.len() {
        let x = segments[index];
        match held {
            None => {
                if x.len() == 0 {
                    lemma_project_flow_widens(
                        segments,
                        index + 1,
                        last,
                        first,
                        None,
                        answers,
                        on_disk,
                        more_answers,
                        more_on_disk,
                        flow,
                    );
                } else {
                    let group = group_at(index, x, first, last);
                    if let Some(id) = project_name(group) {
                        let v = choose|v: Option<Seq<char>>| #[trigger]
                            answers(id, project_key(x), v) && project_flow(
                                segments,
                                index + 1,
                                group,
                                first,
                                v,
                                answers,
                                on_disk,
                                flow,
                            );
                        lemma_project_flow_widens(
                            segments,
                            index + 1,
                            group,
                            first,
                            v,
                            answers,
                            on_disk,
                            more_answers,
                            more_on_disk,
                            flow,
                        );
                        assert(more_answers(id, project_key(x), v));
                    }
                }
            },
            Some(path) => {
                if x.len() == 0 {
                    if on_disk(path, true) && flow == Flow::Break(held) {
                        assert(more_on_disk(path, true));
                    } else {
                        assert(more_on_disk(path, false));
                        lemma_project_flow_widens(
                            segments,
                            index + 1,
                            last,
                            first,
                            None,
                            answers,
                            on_disk,
                            more_answers,
                            more_on_disk,
                            flow,
                        );
                    }
                }
            },
        }
    }
}

/// Looks the key `key` up in the project of the names `name`: asks the
/// platform for the directories of the project, and resolves the key in them.
pub fn lookup_in_project(name: &ProjectName, key: &str, host: &Host) -> (value: Option<String>)
    ensures
        project_yields_either(project_label(name@), key@, *host, opt_text(value)),
{
    let dirs = project_dirs_from(
        name.qualifier.as_str(),
        name.organization.as_str(),
        name.application.as_str(),
    );
    let label = name.label();
    match_proj_dirs(key, label.as_str(), dirs.as_ref(), host)
}

/// Walks the chain `remain` of a `$proj` expression whose tag is `first`, on
/// `host`: the platform finds the directories of each project, and the file
/// system says which paths are on disk.
///
/// `Break` holds the value at which the walk stopped, `Continue` what was
/// held when the alternatives ran out.
pub fn parse_proj_dir_rules(first: &str, remain: &str, separator: char, host: &Host) -> (flow:
    ControlFlow<Option<String>, Option<String>>)
    ensures
        project_flow(
            split_trimmed(remain@, separator),
            0,
            Seq::<char>::empty(),
            first@,
            None,
            project_answers(*host),
            any_disk(),
            flow_text(flow),
        ),
{
    let lookup = |name: &ProjectName, key: &str| -> (value: Option<String>)
        ensures
            project_yields_either(project_label(name@), key@, *host, opt_text(value)),
        { lookup_in_project(name, key, host) };
    let probe = |path: &str| -> (there: bool) { path_exists(path) };
    let flow = parse_proj_dir_rules_with(first, remain, separator, lookup, probe);
    proof {
        assert forall|id: ProjectId, k: Seq<char>, v: Option<Seq<char>>| #[trigger]
            project_answers_of(lookup)(id, k, v) implies project_answers(*host)(id, k, v) by {
            let (name, key, o) = choose|name: &ProjectName, key: &str, o: Option<String>|
                name@ == id && key@ == k && #[trigger] call_ensures(lookup, (name, key), o)
                    && opt_text(o) == v;
            assert(project_yields_either(project_label(name@), key@, *host, opt_text(o)));
        }
        lemma_project_flow_widens(
            split_trimmed(remain@, separator),
            0,
            Seq::<char>::empty(),
            first@,
            None,
            project_answers_of(lookup),
            checks_of(probe),
            project_answers(*host),
            any_disk(),
            flow_text(flow),
        );
    }
    flow
}

/// Resolves a `$proj` expression, whose tag `first_chunk` names a project and
/// whose chain `remain` lists the keys to try.
pub fn handle_project_dirs(first_chunk: &str, remain: &str, host: &Host) -> (value: Option<String>)
    ensures
        project_handled(first_chunk@, remain@, *host, opt_text(value)),
{
    let separator = get_question_mark_separator(remain);
    if separator == NO_SEPARATOR {
        match set_proj_name_opt_tuple(first_chunk) {
            Some((name, proj)) => match_proj_dirs(remain, name.as_str(), proj.as_ref(), host),
            None => None,
        }
    } else {
        let flow = parse_proj_dir_rules(first_chunk, remain, separator, host);
        match flow {
            ControlFlow::Break(value) => {
                assert(flow_value(flow_text(flow)) == opt_text(value));
                value
            },
            ControlFlow::Continue(value) => {
                assert(flow_value(flow_text(flow)) == opt_text(value));
                value
            },
        }
    }
}

/// A `$proj` chain that is written with full-width question marks resolves
/// as the same chain written with half-width ones.
pub proof fn law_full_width_project_chain(
    first: Seq<char>,
    remain: Seq<char>,
    host: Host,
    value: Option<Seq<char>>,
)
    requires
        !remain.contains(HWQM),
        !remain.contains(FULL_COLON),
    ensures
        project_handled(first, half_width(remain), host, value) <==> project_handled(
            first,
            remain,
            host,
            value,
        ),
{
    lemma_half_width_question_mark(remain);
    match question_mark_of(remain) {
        Some(mark) => {
            lemma_full_width_alternatives(remain);
        },
        None => {
            lemma_detected(remain, HWQM, FWQM);
            lemma_half_width_same(remain);
        },
    }
}

/// Whether every full-width colon of the alternative `x` stands behind its
/// last `)`: none is part of the names of a group.
pub open spec fn colons_behind_group(x: Seq<char>) -> bool {
    forall|j: int| 0 <= j < x.len() && x[j] == FULL_COLON ==> end_of_last(x, ')') <= j
}

/// An alternative that is written in full width names the project and the
/// key that its half-width form names.
pub proof fn lemma_half_width_alternative(x: Seq<char>)
    requires
        !x.contains(FWQM),
        !x.contains(HALF_COLON),
        colons_behind_group(x),
    ensures
        half_width(x).len() == x.len(),
        half_width(x).contains('(') <==> x.contains('('),
        project_name(half_width(x)) == project_name(x),
        project_key(half_width(x)) == project_key(x),
{
    let rename = |c: char| half_width_char(c);
    let h = half_width(x);
    assert(h =~= x.map_values(rename));
    assert forall|i: int| 0 <= i < x.len() && x[i] != FULL_COLON implies h[i] == x[i] by {
        if x[i] == FWQM {
            assert(x.contains(FWQM));
        }
    }
    assert forall|i: int| 0 <= i < x.len() implies (rename(#[trigger] x[i]) == '(' <==> x[i]
        == '(') by {}
    assert forall|i: int| 0 <= i < x.len() implies (rename(#[trigger] x[i]) == ')' <==> x[i]
        == ')') by {}
    assert forall|i: int| 0 <= i < x.len() implies (rename(#[trigger] x[i]) == HALF_COLON
        <==> x[i] == FULL_COLON) by {
        if x[i] == HALF_COLON {
            assert(x.contains(HALF_COLON));
        }
    }
    lemma_first_index_renamed(x, rename, '(', '(');
    lemma_end_of_last_renamed(x, rename, ')', ')');
    lemma_end_of_last_renamed(x, rename, FULL_COLON, HALF_COLON);
    lemma_first_index(x, '(');
    lemma_first_index(h, '(');
    lemma_end_of_last(x, ')');
    lemma_end_of_last(x, HALF_COLON);
    lemma_end_of_last(x, FULL_COLON);
    lemma_half_width_colon(x);
    lemma_end_of_last(h, FULL_COLON);
    let open = first_index(x, '(');
    let close = end_of_last(x, ')') - 1;
    if open < x.len() && 0 <= close && open < close {
        assert(h.subrange(open + 1, close) =~= x.subrange(open + 1, close));
    }
    let from = end_of_last(x, FULL_COLON);
    assert(h.skip(from) =~= x.skip(from));
}

/// A walk over alternatives that are written in full width ends as the walk
/// over their half-width forms, where the texts that named the project before
/// name the same project.
pub proof fn lemma_project_flow_half_width(
    segments: Seq<Seq<char>>,
    index: int,
    last_half: Seq<char>,
    last: Seq<char>,
    first: Seq<char>,
    held: Option<Seq<char>>,
    answers: spec_fn(ProjectId, Seq<char>, Option<Seq<char>>) -> bool,
    on_disk: spec_fn(Seq<char>, bool) -> bool,
    flow: Flow,
)
    requires
        0 <= index,
        project_name(last_half) == project_name(last),
        forall|k: int|
            0 <= k < segments.len() ==> {
                let x = #[trigger] segments[k];
                !x.contains(FWQM) && !x.contains(HALF_COLON) && colons_behind_group(x)
            },
    ensures
        project_flow(
            segments.map_values(|x: Seq<char>| half_width(x)),
            index,
            last_half,
            first,
            held,
            answers,
            on_disk,
            flow,
        ) <==> project_flow(segments, index, last, first, held, answers, on_disk, flow),
    decreases segments.len() - index,
{
    let halves = segments.map_values(|x: Seq<char>| half_width(x));
    if index < segments.len() {
        let x = segments[index];
        let hx = halves[index];
        assert(hx == half_width(x));
        lemma_half_width_alternative(x);
        match held {
            None => {
                if x.len() == 0 {
                    lemma_project_flow_half_width(
                        segments,
                        index + 1,
                        last_half,
                        last,
                        first,
                        None,
                        answers,
                        on_disk,
                        flow,
                    );
                } else {
                    let group_half = group_at(index, hx, first, last_half);
                    let group = group_at(index, x, first, last);
                    assert(project_name(group_half) == project_name(group));
                    if let Some(id) = project_name(group) {
                        let key = project_key(x);
                        if project_flow(
                            halves,
                            index,
                            last_half,
                            first,
                            held,
                            answers,
                            on_disk,
                            flow,
                        ) {
                            let v = choose|v: Option<Seq<char>>| #[trigger]
                                answers(id, key, v) && project_flow(
                                    halves,
                                    index + 1,
                                    group_half,
                                    first,
                                    v,
                                    answers,
                                    on_disk,
                                    flow,
                                );
                            lemma_project_flow_half_width(
                                segments,
                                index + 1,
                                group_half,
                                group,
                                first,
                                v,
                                answers,
                                on_disk,
                                flow,
                            );
                            assert(answers(id, key, v) && project_flow(
                                segments,
                                index + 1,
                                group,
                                first,
                                v,
                                answers,
                                on_disk,
                                flow,
                            ));
                        }
                        if project_flow(
                            segments,
                            index,
                            last,
                            first,
                            held,
                            answers,
                            on_disk,
                            flow,
                        ) {
                            let v = choose|v: Option<Seq<char>>| #[trigger]
                                answers(id, key, v) && project_flow(
                                    segments,
                                    index + 1,
                                    group,
                                    first,
                                    v,
                                    answers,
                                    on_disk,
                                    flow,
                                );
                            lemma_project_flow_half_width(
                                segments,
                                index + 1,
                                group_half,
                                group,
                                first,
                                v,
                                answers,
                                on_disk,
                                flow,
                            );
                            assert(answers(id, key, v) && project_flow(
                                halves,
                                index + 1,
                                group_half,
                                first,
                                v,
                                answers,
                                on_disk,
                                flow,
                            ));
                        }
                    }
                }
            },
            Some(path) => {
                if x.len() == 0 {
                    lemma_project_flow_half_width(
                        segments,
                        index + 1,
                        last_half,
                        last,
                        first,
                        None,
                        answers,
                        on_disk,
                        flow,
                    );
                }
            },
        }
    }
}

/// A `$proj` chain that is written in full width, groups and all, resolves
/// as the same chain written in half width, where every full-width colon of
/// an alternative stands behind its group.
pub proof fn law_full_width_project_groups(
    first: Seq<char>,
    remain: Seq<char>,
    answers: spec_fn(ProjectId, Seq<char>, Option<Seq<char>>) -> bool,
    on_disk: spec_fn(Seq<char>, bool) -> bool,
    value: Option<Seq<char>>,
)
    requires
        !remain.contains(HWQM),
        !remain.contains(HALF_COLON),
        forall|k: int|
            0 <= k < split_trimmed(remain, FWQM).len() ==> colons_behind_group(
                #[trigger] split_trimmed(remain, FWQM)[k],
            ),
    ensures
        project_chain_resolves(first, half_width(remain), HWQM, answers, on_disk, value)
            <==> project_chain_resolves(first, remain, FWQM, answers, on_disk, value),
{
    let segments = split_trimmed(remain, FWQM);
    let halves = split_trimmed(half_width(remain), HWQM);
    let nothing = Seq::<char>::empty();
    lemma_half_width_alternatives(remain);
    if project_chain_resolves(first, half_width(remain), HWQM, answers, on_disk, value) {
        let flow = choose|flow: Flow|
            flow_value(flow) == value && #[trigger] project_flow(
                halves,
                0,
                nothing,
                first,
                None,
                answers,
                on_disk,
                flow,
            );
        lemma_project_flow_half_width(
            segments,
            0,
            nothing,
            nothing,
            first,
            None,
            answers,
            on_disk,
            flow,
        );
        assert(project_flow(segments, 0, nothing, first, None, answers, on_disk, flow));
    }
    if project_chain_resolves(first, remain, FWQM, answers, on_disk, value) {
        let flow = choose|flow: Flow|
            flow_value(flow) == value && #[trigger] project_flow(
                segments,
                0,
                nothing,
                first,
                None,
                answers,
                on_disk,
                flow,
            );
        lemma_project_flow_half_width(
            segments,
            0,
            nothing,
            nothing,
            first,
            None,
            answers,
            on_disk,
            flow,
        );
        assert(project_flow(halves, 0, nothing, first, None, answers, on_disk, flow));
    }
}

/// `(a.b.c): x ? (d.e.f): y` resolves to what the first project answers for
/// `x` where that is a value, and else to what the second project answers for
/// `y`: each alternative that opens a group is looked up in the project of
/// that group.
pub proof fn law_project_groups(
    first: Seq<char>,
    a: Seq<char>,
    b: Seq<char>,
    separator: char,
    answers: spec_fn(ProjectId, Seq<char>, Option<Seq<char>>) -> bool,
    on_disk: spec_fn(Seq<char>, bool) -> bool,
    value: Option<Seq<char>>,
)
    requires
        !a.contains(separator),
        !b.contains(separator),
        trim(a).contains('('),
        trim(b).contains('('),
        project_name(trim(a)) is Some,
        project_name(trim(b)) is Some,
    ensures
        project_chain_resolves(first, a + seq![separator] + b, separator, answers, on_disk, value)
            <==> exists|found: Option<Seq<char>>| #[trigger]
            answers(project_name(trim(a))->0, project_key(trim(a)), found) && if found is Some {
                value == found
            } else {
                answers(project_name(trim(b))->0, project_key(trim(b)), value)
            },
{
    let chain = a + seq![separator] + b;
    let segments = split_trimmed(chain, separator);
    let nothing = Seq::<char>::empty();
    lemma_split_first(a, separator, b);
    lemma_split_whole(b, separator);
    assert(segments =~= seq![trim(a), trim(b)]);
    let x = trim(a);
    let y = trim(b);
    let g0 = project_name(x)->0;
    let g1 = project_name(y)->0;
    assert(group_at(0, x, first, nothing) == x);
    assert(group_at(1, y, first, x) == y);
    if project_chain_resolves(first, chain, separator, answers, on_disk, value) {
        let flow = choose|flow: Flow|
            flow_value(flow) == value && #[trigger] project_flow(
                segments,
                0,
                nothing,
                first,
                None,
                answers,
                on_disk,
                flow,
            );
        let found = choose|v: Option<Seq<char>>| #[trigger]
            answers(g0, project_key(x), v) && project_flow(
                segments,
                1,
                x,
                first,
                v,
                answers,
                on_disk,
                flow,
            );
        if found is None {
            let second = choose|v: Option<Seq<char>>| #[trigger]
                answers(g1, project_key(y), v) && project_flow(
                    segments,
                    2,
                    y,
                    first,
                    v,
                    answers,
                    on_disk,
                    flow,
                );
            assert(second == value);
        }
        assert(answers(g0, project_key(x), found));
    }
    if exists|found: Option<Seq<char>>| #[trigger]
        answers(g0, project_key(x), found) && if found is Some {
            value == found
        } else {
            answers(g1, project_key(y), value)
        } {
        let found = choose|found: Option<Seq<char>>| #[trigger]
            answers(g0, project_key(x), found) && if found is Some {
                value == found
            } else {
                answers(g1, project_key(y), value)
            };
        let flow = if found is Some {
            Flow::Break(value)
        } else {
            Flow::Continue(value)
        };
        if found is None {
            assert(project_flow(segments, 2, y, first, value, answers, on_disk, flow));
            assert(answers(g1, project_key(y), value) && project_flow(
                segments,
                2,
                y,
                first,
                value,
                answers,
                on_disk,
                flow,
            ));
        }
        assert(project_flow(segments, 1, x, first, found, answers, on_disk, flow));
        assert(answers(g0, project_key(x), found) && project_flow(
            segments,
            1,
            x,
            first,
            found,
            answers,
            on_disk,
            flow,
        ));
        assert(project_flow(segments, 0, nothing, first, None, answers, on_disk, flow));
    }
}

} // verus!

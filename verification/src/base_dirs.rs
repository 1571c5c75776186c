//! The namespace `$dir`: the standard directories of the platform.

use crate::envpath_core::{EnvPath, AND_SD, PKG_NAME};
use crate::host::Host;
use crate::remix::{namespace_answers, remix_or_none, yields, Tag};
use crate::random::{get_random_value, is_random_text, DEFAULT_LENGTH};
use crate::rules::{
    answers_of, handle_chain, handled, lemma_answers_of, lemma_handled_widens, opt_text,
};
use crate::system::{join_path, joined, parent_of, parent_path};
use crate::text::{
    chars_of, end_of_last, find_from, first_index, text_eq, text_of, trim, trimmed,
};
use vstd::prelude::*;

verus! {

/// The base directories that `$dir` knows, each with the names it goes by.
#[derive(Clone, Copy, Debug, PartialEq, Eq)]
pub enum BaseDir {
    /// `music`, `audio`: where the host keeps music; `Music` on Android.
    Audio,
    /// `cache`.
    Cache,
    /// `cfg`, `config`.
    Config,
    /// `data`.
    Data,
    /// `local-data`, `local_data`: where the local data is kept;
    /// `Android/data` on Android.
    LocalData,
    /// `local-cfg`, `local_cfg`, `local_config`: where the local configuration
    /// is kept; `Android/data` on Android.
    LocalConfig,
    /// `desktop`.
    Desktop,
    /// `doc`, `document`, `documentation`: where the local data is kept;
    /// `Documents` on Android.
    Document,
    /// `dl`, `download`: where the local data is kept; `Download` on Android.
    Download,
    /// `bin`, `exe`, `executable`: where the user's executable files are kept.
    Bin,
    /// `path`, `first-path`, `first_path`: the first entry of `PATH`.
    FirstPath,
    /// `last-path`, `last_path`: the last entry of `PATH`.
    LastPath,
    /// `font`, `typeface`: where fonts are kept.
    Font,
    /// `home`.
    Home,
    /// `pic`, `picture`: where the host keeps music; `Pictures` on Android.
    Picture,
    /// `pref`, `preference`.
    Preference,
    /// `pub`, `public`.
    Public,
    /// `runtime`.
    Runtime,
    /// `state`.
    State,
    /// `template`.
    Template,
    /// `video`, `movie`: where the host keeps videos; `Movies` on Android.
    Video,
    /// `tmp`: what `TMPDIR` names, or a directory for temporary files that
    /// can be written to.
    Tmp,
    /// `tmp-rand`, `tmp_random`: a directory of a random name below `tmp`.
    TmpRandom,
    /// `var-tmp`, `var_tmp`; on Unix only.
    VarTmp,
    /// `temp`, `temporary`: the directory for temporary files that the system
    /// names.
    Temp,
    /// `sd`; on Android only.
    Sd,
    /// `local-low`, `local_low`; on Windows only.
    LocalLow,
    /// `cli-data`, `cli_data`: where the local data is kept, on Android too.
    CliData,
    /// `cli-cfg`, `cli_cfg`, `cli_config`: where the local configuration is
    /// kept, on Android too.
    CliConfig,
    /// `cli-cache`, `cli_cache`: where cached files are kept.
    CliCache,
    /// `progam-files`, `program_files`; on Windows only.
    ProgramFiles,
    /// `program-files-x86`, `program_files_x86`; on Windows only.
    ProgramFilesX86,
    /// `common-program-files`, `common_program_files`; on Windows only.
    CommonProgramFiles,
    /// `common-program-files-x86`, `common_program_files_x86`; on Windows only.
    CommonProgramFilesX86,
    /// `program-data`, `program_data`; on Windows only.
    ProgramData,
    /// `microsoft`; on Windows only.
    Microsoft,
    /// `empty`: the empty text.
    Empty,
}

/// The base directory that `ident` names.
pub open spec fn base_dir_of(ident: Seq<char>) -> Option<BaseDir> {
    if ident == "music"@ || ident == "audio"@ {
        Some(BaseDir::Audio)
    } else if ident == "cache"@ {
        Some(BaseDir::Cache)
    } else if ident == "cfg"@ || ident == "config"@ {
        Some(BaseDir::Config)
    } else if ident == "data"@ {
        Some(BaseDir::Data)
    } else if ident == "local_data"@ || ident == "local-data"@ {
        Some(BaseDir::LocalData)
    } else if ident == "local-cfg"@ || ident == "local_cfg"@ || ident == "local_config"@ {
        Some(BaseDir::LocalConfig)
    } else if ident == "desktop"@ {
        Some(BaseDir::Desktop)
    } else if ident == "doc"@ || ident == "document"@ || ident == "documentation"@ {
        Some(BaseDir::Document)
    } else if ident == "dl"@ || ident == "download"@ {
        Some(BaseDir::Download)
    } else if ident == "bin"@ || ident == "exe"@ || ident == "executable"@ {
        Some(BaseDir::Bin)
    } else if ident == "path"@ || ident == "first-path"@ || ident == "first_path"@ {
        Some(BaseDir::FirstPath)
    } else if ident == "last_path"@ || ident == "last-path"@ {
        Some(BaseDir::LastPath)
    } else if ident == "font"@ || ident == "typeface"@ {
        Some(BaseDir::Font)
    } else if ident == "home"@ {
        Some(BaseDir::Home)
    } else if ident == "pic"@ || ident == "picture"@ {
        Some(BaseDir::Picture)
    } else if ident == "pref"@ || ident == "preference"@ {
        Some(BaseDir::Preference)
    } else if ident == "pub"@ || ident == "public"@ {
        Some(BaseDir::Public)
    } else if ident == "runtime"@ {
        Some(BaseDir::Runtime)
    } else if ident == "state"@ {
        Some(BaseDir::State)
    } else if ident == "template"@ {
        Some(BaseDir::Template)
    } else if ident == "video"@ || ident == "movie"@ {
        Some(BaseDir::Video)
    } else if ident == "tmp"@ {
        Some(BaseDir::Tmp)
    } else if ident == "tmp-rand"@ || ident == "tmp_random"@ {
        Some(BaseDir::TmpRandom)
    } else if ident == "var-tmp"@ || ident == "var_tmp"@ {
        Some(BaseDir::VarTmp)
    } else if ident == "temp"@ || ident == "temporary"@ {
        Some(BaseDir::Temp)
    } else if ident == "sd"@ {
        Some(BaseDir::Sd)
    } else if ident == "local-low"@ || ident == "local_low"@ {
        Some(BaseDir::LocalLow)
    } else if ident == "cli-data"@ || ident == "cli_data"@ {
        Some(BaseDir::CliData)
    } else if ident == "cli-cfg"@ || ident == "cli_cfg"@ || ident == "cli_config"@ {
        Some(BaseDir::CliConfig)
    } else if ident == "cli-cache"@ || ident == "cli_cache"@ {
        Some(BaseDir::CliCache)
    } else if ident == "progam-files"@ || ident == "program_files"@ {
        Some(BaseDir::ProgramFiles)
    } else if ident == "program-files-x86"@ || ident == "program_files_x86"@ {
        Some(BaseDir::ProgramFilesX86)
    } else if ident == "common-program-files"@ || ident == "common_program_files"@ {
        Some(BaseDir::CommonProgramFiles)
    } else if ident == "common-program-files-x86"@ || ident == "common_program_files_x86"@ {
        Some(BaseDir::CommonProgramFilesX86)
    } else if ident == "program-data"@ || ident == "program_data"@ {
        Some(BaseDir::ProgramData)
    } else if ident == "microsoft"@ {
        Some(BaseDir::Microsoft)
    } else if ident == "empty"@ {
        Some(BaseDir::Empty)
    } else {
        None
    }
}

/// The entries of a list of paths as Windows writes it, read from `list` on,
/// where `entry` is what has been read of the entry at hand and `quoted` says
/// whether a quote is open. A `;` outside quotes ends an entry; inside quotes
/// it belongs to the entry. The quotes themselves belong to no entry.
pub open spec fn quoted_entries(list: Seq<char>, quoted: bool, entry: Seq<char>) -> Seq<Seq<char>>
    decreases list.len(),
{
    if list.len() == 0 {
        seq![entry]
    } else if list[0] == '"' {
        quoted_entries(list.drop_first(), !quoted, entry)
    } else if list[0] == ';' && !quoted {
        seq![entry] + quoted_entries(list.drop_first(), false, Seq::<char>::empty())
    } else {
        quoted_entries(list.drop_first(), quoted, entry.push(list[0]))
    }
}

/// The first entry of the list of paths in the variable `PATH`: on Windows
/// the entries stand between `;` and may be quoted, elsewhere they stand
/// between `:`.
pub open spec fn first_path(host: Host) -> Option<Seq<char>> {
    match host.var("PATH"@) {
        Some(list) => Some(
            if host.windows() {
                quoted_entries(list, false, Seq::<char>::empty()).first()
            } else {
                list.take(first_index(list, ':'))
            },
        ),
        None => None,
    }
}

/// The last entry of the list of paths in the variable `PATH`.
pub open spec fn last_path(host: Host) -> Option<Seq<char>> {
    match host.var("PATH"@) {
        Some(list) => Some(
            if host.windows() {
                quoted_entries(list, false, Seq::<char>::empty()).last()
            } else {
                list.skip(end_of_last(list, ':'))
            },
        ),
        None => None,
    }
}

/// Whether `value` may be the directory for the user's executable files:
/// what `bin_dir_among` makes of some answers of the platform.
pub open spec fn bin_dir_may(host: Host, value: Option<Seq<char>>) -> bool {
    exists|
        executable: Option<Seq<char>>,
        microsoft: Option<Seq<char>>,
        home: Option<Seq<char>>,
        local: Option<Seq<char>>,
    |
        value == #[trigger] bin_dir_among(executable, microsoft, home, local, host)
}

/// Whether `value` may be the directory for fonts: what `font_dir_among`
/// makes of some answers of the platform.
pub open spec fn font_dir_may(host: Host, value: Option<Seq<char>>) -> bool {
    exists|font: Option<Seq<char>>, microsoft: Option<Seq<char>>, data: Option<Seq<char>>|
        value == #[trigger] font_dir_among(font, microsoft, data, host)
}

/// The value of the variable `name`, or `fallback` where it is not set.
pub open spec fn var_or(host: Host, name: Seq<char>, fallback: Seq<char>) -> Seq<char> {
    match host.var(name) {
        Some(value) => value,
        None => fallback,
    }
}

/// Whether `dir` may be the directory for temporary files: what the variable
/// `TMPDIR` holds; without it the directory that the system names, or, where
/// nothing can be written there, `tmp` below the directory for cached files,
/// or `.tmp` where there is none.
pub open spec fn tmp_dir_may(host: Host, dir: Seq<char>) -> bool {
    match host.var("TMPDIR"@) {
        Some(value) => dir == value,
        None => if host.temp_dir_read_only {
            dir == ".tmp"@ || exists|cache: Seq<char>| dir == #[trigger] joined(cache, "tmp"@)
        } else {
            dir == host.temp_dir@
        },
    }
}

/// What stands before the random part in the name of a random directory:
/// the prefix, unless it is blank, or the library's name and `_` where none
/// is given.
pub open spec fn random_dir_prefix(prefix: Option<&str>) -> Seq<char> {
    match prefix {
        Some(text) => if trim(text@).len() == 0 {
            Seq::<char>::empty()
        } else {
            text@
        },
        None => PKG_NAME@ + "_"@,
    }
}

/// Whether `dir` may be a random directory for temporary files: a name made
/// of the prefix and `length` random letters and digits, below the directory
/// for temporary files.
pub open spec fn tmp_random_dir_may(
    host: Host,
    prefix: Option<&str>,
    length: nat,
    dir: Seq<char>,
) -> bool {
    exists|tmp: Seq<char>, random: Seq<char>|
        tmp_dir_may(host, tmp) && is_random_text(random, length) && dir == #[trigger] joined(
            tmp,
            random_dir_prefix(prefix) + random,
        )
}

/// Whether a lookup of `dir` on `host` may give `value`. Where the platform's
/// own tables decide, every answer is possible.
pub open spec fn base_dir_may(dir: BaseDir, host: Host, value: Option<Seq<char>>) -> bool {
    match dir {
        BaseDir::Empty => value == Some(Seq::<char>::empty()),
        BaseDir::FirstPath => value == first_path(host),
        BaseDir::LastPath => value == last_path(host),
        BaseDir::Temp => value == Some(host.temp_dir@),
        BaseDir::Tmp => value is Some && tmp_dir_may(host, value->0),
        BaseDir::TmpRandom => value is Some && tmp_random_dir_may(
            host,
            None,
            DEFAULT_LENGTH as nat,
            value->0,
        ),
        BaseDir::VarTmp => if host.unix() {
            value == Some(joined("/var/tmp"@, PKG_NAME@))
        } else {
            value is None
        },
        BaseDir::Sd => if host.android() {
            value == Some(AND_SD@)
        } else {
            value is None
        },
        BaseDir::Audio => value == if host.android() {
            Some(joined(AND_SD@, "Music"@))
        } else {
            opt_text(host.audio_dir)
        },
        BaseDir::Desktop => value == opt_text(host.desktop_dir),
        BaseDir::Public => value == opt_text(host.public_dir),
        BaseDir::Template => value == opt_text(host.template_dir),
        BaseDir::Bin => bin_dir_may(host, value),
        BaseDir::Font => font_dir_may(host, value),
        BaseDir::LocalData | BaseDir::LocalConfig => host.android() ==> value == Some(
            joined(AND_SD@, "Android/data"@),
        ),
        BaseDir::Document => host.android() ==> value == Some(joined(AND_SD@, "Documents"@)),
        BaseDir::Download => host.android() ==> value == Some(joined(AND_SD@, "Download"@)),
        BaseDir::Picture => value == if host.android() {
            Some(joined(AND_SD@, "Pictures"@))
        } else {
            opt_text(host.audio_dir)
        },
        BaseDir::Video => value == if host.android() {
            Some(joined(AND_SD@, "Movies"@))
        } else {
            opt_text(host.video_dir)
        },
        BaseDir::LocalLow | BaseDir::Microsoft => !host.windows() ==> value is None,
        BaseDir::ProgramFiles => if host.windows() {
            value == Some(var_or(host, "ProgramFiles"@, "C:\\Program Files"@))
        } else {
            value is None
        },
        BaseDir::ProgramFilesX86 => if host.windows() {
            value == Some(var_or(host, "ProgramFiles(x86)"@, "=C:\\Program Files (x86)"@))
        } else {
            value is None
        },
        BaseDir::CommonProgramFiles => if host.windows() {
            value == Some(
                var_or(host, "CommonProgramFiles"@, "C:\\Program Files\\Common Files"@),
            )
        } else {
            value is None
        },
        BaseDir::CommonProgramFilesX86 => if host.windows() {
            value == Some(
                var_or(
                    host,
                    "CommonProgramFiles(x86)"@,
                    "C:\\Program Files (x86)\\Common Files"@,
                ),
            )
        } else {
            value is None
        },
        BaseDir::ProgramData => if host.windows() {
            value == Some(var_or(host, "ProgramData"@, "C:\\ProgramData"@))
        } else {
            value is None
        },
        _ => true,
    }
}

/// `dirs::home_dir`: the user's home directory, as the platform and the
/// environment give it. Nothing is promised of the answer.
#[verifier::external_body]
fn home_dir() -> (dir: Option<String>) {
    match dirs::home_dir() {
        Some(path) => Some(path.to_string_lossy().into_owned()),
        None => None,
    }
}

/// `dirs::cache_dir`: the directory for the user's cached files, as the
/// platform and the environment give it. Nothing is promised of the answer.
#[verifier::external_body]
fn cache_dir() -> (dir: Option<String>) {
    match dirs::cache_dir() {
        Some(path) => Some(path.to_string_lossy().into_owned()),
        None => None,
    }
}

/// `dirs::config_dir`: the directory for the user's configuration, as the
/// platform and the environment give it. Nothing is promised of the answer.
#[verifier::external_body]
fn config_dir() -> (dir: Option<String>) {
    match dirs::config_dir() {
        Some(path) => Some(path.to_string_lossy().into_owned()),
        None => None,
    }
}

/// `dirs::config_local_dir`: the directory for the user's configuration that
/// stays on this machine, as the platform and the environment give it. Nothing
/// is promised of the answer.
#[verifier::external_body]
fn config_local_dir() -> (dir: Option<String>) {
    match dirs::config_local_dir() {
        Some(path) => Some(path.to_string_lossy().into_owned()),
        None => None,
    }
}

/// `dirs::data_dir`: the directory for the user's data, as the platform and
/// the environment give it. Nothing is promised of the answer.
#[verifier::external_body]
fn data_dir() -> (dir: Option<String>) {
    match dirs::data_dir() {
        Some(path) => Some(path.to_string_lossy().into_owned()),
        None => None,
    }
}

/// `dirs::data_local_dir`: the directory for the user's data that stays on
/// this machine, as the platform and the environment give it. Nothing is
/// promised of the answer.
#[verifier::external_body]
fn data_local_dir() -> (dir: Option<String>) {
    match dirs::data_local_dir() {
        Some(path) => Some(path.to_string_lossy().into_owned()),
        None => None,
    }
}

/// `dirs::executable_dir`: the directory for the user's executable files, as
/// the platform and the environment give it. Nothing is promised of the
/// answer.
#[verifier::external_body]
fn executable_dir() -> (dir: Option<String>) {
    match dirs::executable_dir() {
        Some(path) => Some(path.to_string_lossy().into_owned()),
        None => None,
    }
}

/// `dirs::preference_dir`: the directory for the user's preferences, as the
/// platform and the environment give it. Nothing is promised of the answer.
#[verifier::external_body]
fn preference_dir() -> (dir: Option<String>) {
    match dirs::preference_dir() {
        Some(path) => Some(path.to_string_lossy().into_owned()),
        None => None,
    }
}

/// `dirs::runtime_dir`: the directory for the user's runtime files, as the
/// platform and the environment give it. Nothing is promised of the answer.
#[verifier::external_body]
fn runtime_dir() -> (dir: Option<String>) {
    match dirs::runtime_dir() {
        Some(path) => Some(path.to_string_lossy().into_owned()),
        None => None,
    }
}

/// `dirs::state_dir`: the directory for the user's state files, as the
/// platform and the environment give it. Nothing is promised of the answer.
#[verifier::external_body]
fn state_dir() -> (dir: Option<String>) {
    match dirs::state_dir() {
        Some(path) => Some(path.to_string_lossy().into_owned()),
        None => None,
    }
}

/// `dirs::font_dir`: the directory for the user's fonts, as the platform and
/// the environment give it. Nothing is promised of the answer.
#[verifier::external_body]
fn font_dir() -> (dir: Option<String>) {
    match dirs::font_dir() {
        Some(path) => Some(path.to_string_lossy().into_owned()),
        None => None,
    }
}

/// The value of the variable `name`, or `fallback` where it is not set.
fn get_var_or(host: &Host, name: &str, fallback: &str) -> (value: String)
    ensures
        value@ == var_or(*host, name@, fallback@),
{
    match host.get_var(name) {
        Some(value) => value,
        None => fallback.to_owned(),
    }
}

/// A copy of a directory that the host holds.
fn copy_of(dir: &Option<String>) -> (copy: Option<String>)
    ensures
        opt_text(copy) == opt_text(*dir),
{
    match dir {
        Some(path) => Some(path.clone()),
        None => None,
    }
}

/// `s` below the directory that Android shares with its user.
pub fn set_android_dir(s: &str) -> (dir: Option<String>)
    ensures
        opt_text(dir) == Some(joined(AND_SD@, s@)),
{
    Some(join_path(AND_SD, s))
}

/// The directory that `find` gives; on Android `android_dir` below the
/// shared directory stands for it, and `find` is not asked.
pub fn set_dir<F: FnOnce() -> Option<String>>(find: F, android_dir: &str, host: &Host) -> (dir:
    Option<String>)
    requires
        call_requires(find, ()),
    ensures
        host.android() ==> opt_text(dir) == Some(joined(AND_SD@, android_dir@)),
        !host.android() ==> call_ensures(find, (), dir),
{
    if host.is_android() {
        set_android_dir(android_dir)
    } else {
        find()
    }
}

/// `component` below `base`, where there is a base.
pub open spec fn under(base: Option<Seq<char>>, component: Seq<char>) -> Option<Seq<char>> {
    match base {
        Some(path) => Some(joined(path, component)),
        None => None,
    }
}

/// The directory for the user's executable files, given what the platform
/// names as such, as Microsoft's local data, as the home directory and as the
/// local data: the first of these; else `WindowsApps` in Microsoft's local
/// data on Windows and `.local/bin` in the home directory on Unix; else `bin`
/// in the local data.
pub open spec fn bin_dir_among(
    executable: Option<Seq<char>>,
    microsoft: Option<Seq<char>>,
    home: Option<Seq<char>>,
    local: Option<Seq<char>>,
    host: Host,
) -> Option<Seq<char>> {
    let preferred = if executable is Some {
        executable
    } else if host.windows() {
        under(microsoft, "WindowsApps"@)
    } else if host.unix() {
        under(home, ".local/bin"@)
    } else {
        None
    };
    if preferred is Some {
        preferred
    } else {
        under(local, "bin"@)
    }
}

/// The directory for fonts, given what the platform names as such, as
/// Microsoft's local data and as the user's data: the first of these; else
/// `Windows\Fonts` on Windows, in Microsoft's local data or on drive `C:`,
/// and `fonts` in the user's data on Unix.
pub open spec fn font_dir_among(
    font: Option<Seq<char>>,
    microsoft: Option<Seq<char>>,
    data: Option<Seq<char>>,
    host: Host,
) -> Option<Seq<char>> {
    if font is Some {
        font
    } else if host.windows() {
        match microsoft {
            Some(dir) => Some(joined(dir, "Windows\\Fonts"@)),
            None => Some("C:\\Windows\\Fonts"@),
        }
    } else if host.unix() {
        under(data, "fonts"@)
    } else {
        None
    }
}

/// `component` below `base`, where there is a base.
pub fn below(base: Option<String>, component: &str) -> (dir: Option<String>)
    ensures
        opt_text(dir) == under(opt_text(base), component@),
{
    match base {
        Some(path) => Some(join_path(path.as_str(), component)),
        None => None,
    }
}

/// Picks the directory for the user's executable files from what the platform
/// names as such, as Microsoft's local data, as the home directory and as the
/// local data.
pub fn choose_bin_dir(
    executable: Option<String>,
    microsoft: Option<String>,
    home: Option<String>,
    local: Option<String>,
    host: &Host,
) -> (dir: Option<String>)
    ensures
        opt_text(dir) == bin_dir_among(
            opt_text(executable),
            opt_text(microsoft),
            opt_text(home),
            opt_text(local),
            *host,
        ),
{
    let preferred = if executable.is_some() {
        executable
    } else if host.is_windows() {
        below(microsoft, "WindowsApps")
    } else if host.is_unix() {
        below(home, ".local/bin")
    } else {
        None
    };
    if preferred.is_some() {
        preferred
    } else {
        below(local, "bin")
    }
}

/// Picks the directory for fonts from what the platform names as such, as
/// Microsoft's local data and as the user's data.
pub fn choose_font_dir(
    font: Option<String>,
    microsoft: Option<String>,
    data: Option<String>,
    host: &Host,
) -> (dir: Option<String>)
    ensures
        opt_text(dir) == font_dir_among(
            opt_text(font),
            opt_text(microsoft),
            opt_text(data),
            *host,
        ),
{
    if font.is_some() {
        font
    } else if host.is_windows() {
        match microsoft {
            Some(dir) => Some(join_path(dir.as_str(), "Windows\\Fonts")),
            None => Some("C:\\Windows\\Fonts".to_owned()),
        }
    } else if host.is_unix() {
        below(data, "fonts")
    } else {
        None
    }
}

/// The directory `LocalLow` beside the user's local data `local`.
pub fn local_low_beside(local: Option<String>) -> (dir: Option<String>)
    ensures
        opt_text(dir) == match local {
            Some(path) => under(parent_of(path@), "LocalLow"@),
            None => None,
        },
{
    match local {
        Some(path) => below(parent_path(path.as_str()), "LocalLow"),
        None => None,
    }
}

/// The directory `Microsoft` in the user's local data, on Windows: where the
/// platform names a directory for the local data, `Microsoft` joined onto it,
/// and nothing where it names none.
pub(crate) fn get_microsoft_windows_data_dir() -> (dir: Option<String>)
    ensures
        dir matches Some(path) ==> exists|local: Seq<char>|
            path@ == #[trigger] joined(local, "Microsoft"@),
{
    let local = data_local_dir();
    let ghost base = opt_text(local);
    let dir = below(local, "Microsoft");
    proof {
        if base is Some {
            assert(dir->0@ == joined(base->0, "Microsoft"@));
        }
    }
    dir
}

/// The directory for the user's executable files, as the platform names it
/// or as `choose_bin_dir` places it.
pub(crate) fn set_bin_dir(host: &Host) -> (dir: Option<String>)
    ensures
        bin_dir_may(*host, opt_text(dir)),
{
    let executable = executable_dir();
    let microsoft = get_microsoft_windows_data_dir();
    let home = home_dir();
    let local = data_local_dir();
    choose_bin_dir(executable, microsoft, home, local, host)
}

/// The directory for fonts, as the platform names it or as `choose_font_dir`
/// places it.
pub(crate) fn set_font_dir(host: &Host) -> (dir: Option<String>)
    ensures
        font_dir_may(*host, opt_text(dir)),
        host.windows() ==> dir is Some,
{
    let font = font_dir();
    let microsoft = get_microsoft_windows_data_dir();
    let data = data_dir();
    choose_font_dir(font, microsoft, data, host)
}

/// The first or the last entry of the list of paths in the variable `PATH`,
/// for `s` being `first` or `last`.
pub fn set_double_ended_path(s: &str, host: &Host) -> (entry: Option<String>)
    ensures
        opt_text(entry) == if s@ == "first"@ {
            first_path(*host)
        } else if s@ == "last"@ {
            last_path(*host)
        } else {
            None
        },
{
    let list = match host.get_var("PATH") {
        Some(list) => list,
        None => {
            return None;
        },
    };
    let first = text_eq(s, "first");
    let last = text_eq(s, "last");
    if !first && !last {
        return None;
    }
    if host.is_windows() {
        let entries = windows_entries(list.as_str());
        let at = if first {
            0
        } else {
            entries.len() - 1
        };
        return Some(entries[at].clone());
    }
    let chars = chars_of(list.as_str());
    let n = chars.len();
    if first {
        let end = find_from(&chars, 0, ':');
        assert(chars@.skip(0) =~= chars@);
        assert(chars@.subrange(0, end as int) =~= chars@.take(end as int));
        Some(text_of(&chars, 0, end))
    } else {
        let mut from: usize = n;
        assert(chars@.take(n as int) =~= chars@);
        while from > 0 && chars[from - 1] != ':'
            invariant
                from <= n == chars.len(),
                end_of_last(chars@, ':') == end_of_last(chars@.take(from as int), ':'),
            decreases from,
        {
            assert(chars@.take(from as int).drop_last() =~= chars@.take(from - 1));
            from -= 1;
        }
        assert(chars@.subrange(from as int, n as int) =~= chars@.skip(from as int));
        Some(text_of(&chars, from, n))
    }
}

/// The texts of `entries`, in order.
pub open spec fn texts(entries: Seq<String>) -> Seq<Seq<char>> {
    entries.map_values(|entry: String| entry@)
}

/// The entries of a list of paths as Windows writes it: they stand between
/// `;`, and a `;` between quotes belongs to its entry. The quotes are dropped.
pub fn windows_entries(list: &str) -> (entries: Vec<String>)
    ensures
        texts(entries@) == quoted_entries(list@, false, Seq::<char>::empty()),
        entries@.len() >= 1,
{
    let chars = chars_of(list);
    let n = chars.len();
    let mut entries: Vec<String> = Vec::new();
    let mut entry: Vec<char> = Vec::new();
    let mut quoted = false;
    let mut i: usize = 0;
    let ghost all = quoted_entries(list@, false, Seq::<char>::empty());
    proof {
        assert(chars@.skip(0) =~= chars@);
        assert(texts(entries@) =~= Seq::<Seq<char>>::empty());
        assert(entry@ =~= Seq::<char>::empty());
    }
    while i < n
        invariant
            i <= n == chars.len(),
            all == texts(entries@) + quoted_entries(chars@.skip(i as int), quoted, entry@),
        decreases n - i,
    {
        let c = chars[i];
        let ghost rest = chars@.skip(i as int);
        proof {
            assert(rest[0] == c);
            assert(rest.drop_first() =~= chars@.skip(i + 1));
        }
        if c == '"' {
            quoted = !quoted;
        } else if c == ';' && !quoted {
            let len = entry.len();
            let done = text_of(&entry, 0, len);
            proof {
                assert(entry@.subrange(0, len as int) =~= entry@);
                assert(texts(entries@.push(done)) =~= texts(entries@) + seq![entry@]);
            }
            entries.push(done);
            entry = Vec::new();
            assert(entry@ =~= Seq::<char>::empty());
        } else {
            entry.push(c);
        }
        i += 1;
    }
    let len = entry.len();
    let done = text_of(&entry, 0, len);
    proof {
        assert(chars@.skip(n as int).len() == 0);
        assert(entry@.subrange(0, len as int) =~= entry@);
        assert(texts(entries@.push(done)) =~= texts(entries@) + seq![entry@]);
    }
    entries.push(done);
    entries
}

impl<'r> EnvPath<'r> {
    /// The directory for temporary files: what the variable `TMPDIR` holds;
    /// without it the directory that the system names, or, where nothing can
    /// be written there, `tmp` below the directory for cached files, or `.tmp`
    /// where there is none.
    pub fn get_tmp_dir(host: &Host) -> (dir: String)
        ensures
            tmp_dir_may(*host, dir@),
    {
        match host.get_var("TMPDIR") {
            Some(dir) => dir,
            None => {
                if host.temp_dir_read_only {
                    match cache_dir() {
                        Some(cache) => join_path(cache.as_str(), "tmp"),
                        None => ".tmp".to_owned(),
                    }
                } else {
                    host.temp_dir.clone()
                }
            },
        }
    }

    /// A directory of a random name below the directory for temporary files.
    /// The name is `prefix` followed by `rand_length` random letters and
    /// digits, 16 where no length is given; a blank prefix counts as empty,
    /// and without a prefix the library's name and `_` take its place.
    pub fn get_tmp_random_dir(
        prefix: Option<&str>,
        rand_length: Option<usize>,
        host: &Host,
    ) -> (dir: String)
        ensures
            tmp_random_dir_may(
                *host,
                prefix,
                match rand_length {
                    Some(length) => length as nat,
                    None => DEFAULT_LENGTH as nat,
                },
                dir@,
            ),
    {
        let random = get_random_value(rand_length);
        let tmp = Self::get_tmp_dir(host);
        let name = match prefix {
            Some(text) => {
                if trimmed(text).is_empty() {
                    random
                } else {
                    text.to_owned().concat(random.as_str())
                }
            },
            None => PKG_NAME.to_owned().concat("_").concat(random.as_str()),
        };
        proof {
            assert(name@ =~= random_dir_prefix(prefix) + random@);
        }
        join_path(tmp.as_str(), name.as_str())
    }
}

impl BaseDir {
    /// The base directory that `ident` names.
    pub fn named(ident: &str) -> (found: Option<BaseDir>)
        ensures
            found == base_dir_of(ident@),
    {
        if text_eq(ident, "music") || text_eq(ident, "audio") {
            Some(BaseDir::Audio)
        } else if text_eq(ident, "cache") {
            Some(BaseDir::Cache)
        } else if text_eq(ident, "cfg") || text_eq(ident, "config") {
            Some(BaseDir::Config)
        } else if text_eq(ident, "data") {
            Some(BaseDir::Data)
        } else if text_eq(ident, "local_data") || text_eq(ident, "local-data") {
            Some(BaseDir::LocalData)
        } else if text_eq(ident, "local-cfg")
            || text_eq(ident, "local_cfg")
            || text_eq(ident, "local_config") {
            Some(BaseDir::LocalConfig)
        } else if text_eq(ident, "desktop") {
            Some(BaseDir::Desktop)
        } else if text_eq(ident, "doc")
            || text_eq(ident, "document")
            || text_eq(ident, "documentation") {
            Some(BaseDir::Document)
        } else if text_eq(ident, "dl") || text_eq(ident, "download") {
            Some(BaseDir::Download)
        } else if text_eq(ident, "bin") || text_eq(ident, "exe") || text_eq(ident, "executable") {
            Some(BaseDir::Bin)
        } else if text_eq(ident, "path")
            || text_eq(ident, "first-path")
            || text_eq(ident, "first_path") {
            Some(BaseDir::FirstPath)
        } else if text_eq(ident, "last_path") || text_eq(ident, "last-path") {
            Some(BaseDir::LastPath)
        } else if text_eq(ident, "font") || text_eq(ident, "typeface") {
            Some(BaseDir::Font)
        } else if text_eq(ident, "home") {
            Some(BaseDir::Home)
        } else if text_eq(ident, "pic") || text_eq(ident, "picture") {
            Some(BaseDir::Picture)
        } else if text_eq(ident, "pref") || text_eq(ident, "preference") {
            Some(BaseDir::Preference)
        } else if text_eq(ident, "pub") || text_eq(ident, "public") {
            Some(BaseDir::Public)
        } else if text_eq(ident, "runtime") {
            Some(BaseDir::Runtime)
        } else if text_eq(ident, "state") {
            Some(BaseDir::State)
        } else if text_eq(ident, "template") {
            Some(BaseDir::Template)
        } else if text_eq(ident, "video") || text_eq(ident, "movie") {
            Some(BaseDir::Video)
        } else if text_eq(ident, "tmp") {
            Some(BaseDir::Tmp)
        } else if text_eq(ident, "tmp-rand") || text_eq(ident, "tmp_random") {
            Some(BaseDir::TmpRandom)
        } else if text_eq(ident, "var-tmp") || text_eq(ident, "var_tmp") {
            Some(BaseDir::VarTmp)
        } else if text_eq(ident, "temp") || text_eq(ident, "temporary") {
            Some(BaseDir::Temp)
        } else if text_eq(ident, "sd") {
            Some(BaseDir::Sd)
        } else if text_eq(ident, "local-low") || text_eq(ident, "local_low") {
            Some(BaseDir::LocalLow)
        } else if text_eq(ident, "cli-data") || text_eq(ident, "cli_data") {
            Some(BaseDir::CliData)
        } else if text_eq(ident, "cli-cfg")
            || text_eq(ident, "cli_cfg")
            || text_eq(ident, "cli_config") {
            Some(BaseDir::CliConfig)
        } else if text_eq(ident, "cli-cache") || text_eq(ident, "cli_cache") {
            Some(BaseDir::CliCache)
        } else if text_eq(ident, "progam-files") || text_eq(ident, "program_files") {
            Some(BaseDir::ProgramFiles)
        } else if text_eq(ident, "program-files-x86") || text_eq(ident, "program_files_x86") {
            Some(BaseDir::ProgramFilesX86)
        } else if text_eq(ident, "common-program-files") || text_eq(ident, "common_program_files") {
            Some(BaseDir::CommonProgramFiles)
        } else if text_eq(ident, "common-program-files-x86")
            || text_eq(ident, "common_program_files_x86") {
            Some(BaseDir::CommonProgramFilesX86)
        } else if text_eq(ident, "program-data") || text_eq(ident, "program_data") {
            Some(BaseDir::ProgramData)
        } else if text_eq(ident, "microsoft") {
            Some(BaseDir::Microsoft)
        } else if text_eq(ident, "empty") {
            Some(BaseDir::Empty)
        } else {
            None
        }
    }

    /// Finds the directory on `host`.
    pub fn locate(self, host: &Host) -> (dir: Option<String>)
        ensures
            base_dir_may(self, *host, opt_text(dir)),
    {
        match self {
            BaseDir::Audio => {
                let find = || -> (dir: Option<String>)
                    ensures
                        opt_text(dir) == opt_text(host.audio_dir),
                    { copy_of(&host.audio_dir) };
                set_dir(find, "Music", host)
            },
            BaseDir::Cache => cache_dir(),
            BaseDir::Config => config_dir(),
            BaseDir::Data => data_dir(),
            BaseDir::LocalData => set_dir(data_local_dir, "Android/data", host),
            BaseDir::LocalConfig => set_dir(config_local_dir, "Android/data", host),
            BaseDir::Desktop => copy_of(&host.desktop_dir),
            BaseDir::Document => set_dir(data_local_dir, "Documents", host),
            BaseDir::Download => set_dir(data_local_dir, "Download", host),
            BaseDir::Bin => set_bin_dir(host),
            BaseDir::FirstPath => set_double_ended_path("first", host),
            BaseDir::LastPath => {
                proof {
                    reveal_strlit("first");
                    reveal_strlit("last");
                    assert("first"@.len() != "last"@.len());
                }
                set_double_ended_path("last", host)
            },
            BaseDir::Font => set_font_dir(host),
            BaseDir::Home => home_dir(),
            BaseDir::Picture => {
                let find = || -> (dir: Option<String>)
                    ensures
                        opt_text(dir) == opt_text(host.audio_dir),
                    { copy_of(&host.audio_dir) };
                set_dir(find, "Pictures", host)
            },
            BaseDir::Preference => preference_dir(),
            BaseDir::Public => copy_of(&host.public_dir),
            BaseDir::Runtime => runtime_dir(),
            BaseDir::State => state_dir(),
            BaseDir::Template => copy_of(&host.template_dir),
            BaseDir::Video => {
                let find = || -> (dir: Option<String>)
                    ensures
                        opt_text(dir) == opt_text(host.video_dir),
                    { copy_of(&host.video_dir) };
                set_dir(find, "Movies", host)
            },
            BaseDir::Tmp => Some(EnvPath::get_tmp_dir(host)),
            BaseDir::TmpRandom => Some(EnvPath::get_tmp_random_dir(None, None, host)),
            BaseDir::VarTmp => {
                if host.is_unix() {
                    Some(join_path("/var/tmp", PKG_NAME))
                } else {
                    None
                }
            },
            BaseDir::Temp => Some(host.temp_dir.clone()),
            BaseDir::Sd => {
                if host.is_android() {
                    Some(AND_SD.to_owned())
                } else {
                    None
                }
            },
            BaseDir::LocalLow => {
                if host.is_windows() {
                    local_low_beside(data_local_dir())
                } else {
                    None
                }
            },
            BaseDir::CliData => data_local_dir(),
            BaseDir::CliConfig => config_local_dir(),
            BaseDir::CliCache => cache_dir(),
            BaseDir::ProgramFiles => {
                if host.is_windows() {
                    Some(get_var_or(host, "ProgramFiles", "C:\\Program Files"))
                } else {
                    None
                }
            },
            BaseDir::ProgramFilesX86 => {
                if host.is_windows() {
                    Some(get_var_or(host, "ProgramFiles(x86)", "=C:\\Program Files (x86)"))
                } else {
                    None
                }
            },
            BaseDir::CommonProgramFiles => {
                if host.is_windows() {
                    Some(
                        get_var_or(host, "CommonProgramFiles", "C:\\Program Files\\Common Files"),
                    )
                } else {
                    None
                }
            },
            BaseDir::CommonProgramFilesX86 => {
                if host.is_windows() {
                    Some(
                        get_var_or(
                            host,
                            "CommonProgramFiles(x86)",
                            "C:\\Program Files (x86)\\Common Files",
                        ),
                    )
                } else {
                    None
                }
            },
            BaseDir::ProgramData => {
                if host.is_windows() {
                    Some(get_var_or(host, "ProgramData", "C:\\ProgramData"))
                } else {
                    None
                }
            },
            BaseDir::Microsoft => {
                if host.is_windows() {
                    below(data_dir(), "Microsoft")
                } else {
                    None
                }
            },
            BaseDir::Empty => Some(String::new()),
        }
    }
}

/// Resolves `ident` in `$dir: ident`: a base directory by its name, or a
/// remix expression.
pub fn match_base_dirs(ident: &str, host: &Host) -> (value: Option<String>)
    ensures
        yields(Tag::Dir, ident@, *host, opt_text(value)),
    decreases ident@.len(), 3int,
{
    match BaseDir::named(ident) {
        Some(dir) => dir.locate(host),
        None => remix_or_none(ident, host),
    }
}

/// Resolves the chain of a `$dir` expression.
pub fn handle_dirs(ident: &str, host: &Host) -> (value: Option<String>)
    ensures
        handled(
            ident@,
            namespace_answers(Tag::Dir, *host),
            namespace_answers(Tag::Dir, *host),
            opt_text(value),
        ),
{
    let direct = |x: &str| -> (v: Option<String>)
        ensures
            yields(Tag::Dir, x@, *host, opt_text(v)),
        { match_base_dirs(x, host) };
    let each = |x: &str| -> (v: Option<String>)
        ensures
            yields(Tag::Dir, x@, *host, opt_text(v)),
        { match_base_dirs(x, host) };
    let value = handle_chain(ident, direct, each);
    proof {
        lemma_answers_of(direct, namespace_answers(Tag::Dir, *host));
        lemma_answers_of(each, namespace_answers(Tag::Dir, *host));
        lemma_handled_widens(
            ident@,
            answers_of(direct),
            answers_of(each),
            namespace_answers(Tag::Dir, *host),
            namespace_answers(Tag::Dir, *host),
            opt_text(value),
        );
    }
    value
}

} // verus!

//! What the library knows of the machine it runs on: plain values that the
//! caller reads once and hands over.

use crate::rules::opt_text;
use crate::text::text_eq;
use vstd::prelude::*;

verus! {

/// The machine that paths are resolved for.
#[derive(Debug, Clone, PartialEq, Eq)]
pub struct Host {
    /// The environment: names with their values, in the order they were read.
    pub vars: Vec<(String, String)>,
    /// The architecture of the processor, such as `x86_64`.
    pub arch: String,
    /// The operating system, such as `linux`.
    pub os: String,
    /// The family of the operating system: `unix` or `windows`.
    pub family: String,
    /// What ends the name of an executable file, such as `.exe`.
    pub exe_suffix: String,
    /// The extension of an executable file, such as `exe`.
    pub exe_extension: String,
    /// Whether the processor stores the low byte first.
    pub little_endian: bool,
    /// Whether an `arm` processor has the `vfpv3` floating point unit.
    pub vfpv3: bool,
    /// The directory for temporary files that the system names.
    pub temp_dir: String,
    /// Whether nothing can be written to that directory: it is read-only,
    /// or nothing can be learned of it.
    pub temp_dir_read_only: bool,
    /// The directory for the user's music, where the platform names one.
    pub audio_dir: Option<String>,
    /// The directory of the user's desktop, where the platform names one.
    pub desktop_dir: Option<String>,
    /// The directory for what the user shares, where the platform names one.
    pub public_dir: Option<String>,
    /// The directory for the user's templates, where the platform names one.
    pub template_dir: Option<String>,
    /// The directory for the user's videos, where the platform names one.
    pub video_dir: Option<String>,
}

/// The value of the first pair in `vars` whose name is `name`.
pub open spec fn value_in(vars: Seq<(String, String)>, name: Seq<char>) -> Option<Seq<char>>
    decreases vars.len(),
{
    if vars.len() == 0 {
        None
    } else if vars[0].0@ == name {
        Some(vars[0].1@)
    } else {
        value_in(vars.drop_first(), name)
    }
}

impl Host {
    /// The value of the environment variable `name`, if it is set.
    pub open spec fn var(self, name: Seq<char>) -> Option<Seq<char>> {
        value_in(self.vars@, name)
    }

    /// Whether the operating system is Android.
    pub open spec fn android(self) -> bool {
        self.os@ == "android"@
    }

    /// Whether the operating system belongs to the Windows family.
    pub open spec fn windows(self) -> bool {
        self.family@ == "windows"@
    }

    /// Whether the operating system belongs to the Unix family.
    pub open spec fn unix(self) -> bool {
        self.family@ == "unix"@
    }

    /// A host of the given system with an empty environment.
    pub fn new(arch: &str, os: &str, family: &str) -> (host: Host)
        ensures
            host.vars@.len() == 0,
            host.arch@ == arch@,
            host.os@ == os@,
            host.family@ == family@,
            host.exe_suffix@.len() == 0,
            host.exe_extension@.len() == 0,
            host.little_endian,
            !host.vfpv3,
            host.temp_dir@ == "/tmp"@,
            !host.temp_dir_read_only,
            host.audio_dir is None,
            host.desktop_dir is None,
            host.public_dir is None,
            host.template_dir is None,
            host.video_dir is None,
    {
        Host {
            vars: Vec::new(),
            arch: arch.to_owned(),
            os: os.to_owned(),
            family: family.to_owned(),
            exe_suffix: String::new(),
            exe_extension: String::new(),
            little_endian: true,
            vfpv3: false,
            temp_dir: "/tmp".to_owned(),
            temp_dir_read_only: false,
            audio_dir: None,
            desktop_dir: None,
            public_dir: None,
            template_dir: None,
            video_dir: None,
        }
    }

    /// Appends the variable `name` with the value `value` to the environment.
    /// A lookup finds the first pair of a name, so a name that is set keeps
    /// its value.
    pub fn add_var(&mut self, name: &str, value: &str)
        ensures
            final(self).var(name@) == match old(self).var(name@) {
                Some(set) => Some(set),
                None => Some(value@),
            },
            forall|other: Seq<char>|
                other != name@ ==> final(self).var(other) == old(self).var(other),
            final(self).vars@.len() == old(self).vars@.len() + 1,
            final(self).arch == old(self).arch,
            final(self).os == old(self).os,
            final(self).family == old(self).family,
            final(self).exe_suffix == old(self).exe_suffix,
            final(self).exe_extension == old(self).exe_extension,
            final(self).little_endian == old(self).little_endian,
            final(self).vfpv3 == old(self).vfpv3,
            final(self).temp_dir == old(self).temp_dir,
            final(self).temp_dir_read_only == old(self).temp_dir_read_only,
            final(self).audio_dir == old(self).audio_dir,
            final(self).desktop_dir == old(self).desktop_dir,
            final(self).public_dir == old(self).public_dir,
            final(self).template_dir == old(self).template_dir,
            final(self).video_dir == old(self).video_dir,
    {
        let ghost before = self.vars@;
        let pair = (name.to_owned(), value.to_owned());
        self.vars.push(pair);
        proof {
            assert forall|other: Seq<char>| true implies #[trigger] value_in(self.vars@, other)
                == match value_in(before, other) {
                Some(set) => Some(set),
                None => if other == name@ {
                    Some(value@)
                } else {
                    None
                },
            } by {
                lemma_value_in_push(before, pair, other);
            }
        }
    }

    /// Looks the environment variable `name` up: the first pair of that name
    /// gives the value.
    pub fn get_var(&self, name: &str) -> (value: Option<String>)
        ensures
            opt_text(value) == self.var(name@),
    {
        let mut i: usize = 0;
        assert(self.vars@.skip(0) =~= self.vars@);
        while i < self.vars.len()
            invariant
                i <= self.vars.len(),
                self.var(name@) == value_in(self.vars@.skip(i as int), name@),
            decreases self.vars.len() - i,
        {
            if text_eq(self.vars[i].0.as_str(), name) {
                return Some(self.vars[i].1.clone());
            }
            assert(self.vars@.skip(i as int).drop_first() =~= self.vars@.skip(i + 1));
            i += 1;
        }
        None
    }

    /// Whether the operating system is Android.
    pub fn is_android(&self) -> (yes: bool)
        ensures
            yes == self.android(),
    {
        text_eq(self.os.as_str(), "android")
    }

    /// Whether the operating system belongs to the Windows family.
    pub fn is_windows(&self) -> (yes: bool)
        ensures
            yes == self.windows(),
    {
        text_eq(self.family.as_str(), "windows")
    }

    /// Whether the operating system belongs to the Unix family.
    pub fn is_unix(&self) -> (yes: bool)
        ensures
            yes == self.unix(),
    {
        text_eq(self.family.as_str(), "unix")
    }
}

/// A pair appended to the environment is found only where no earlier pair
/// has its name.
pub proof fn lemma_value_in_push(
    vars: Seq<(String, String)>,
    pair: (String, String),
    name: Seq<char>,
)
    ensures
        value_in(vars.push(pair), name) == match value_in(vars, name) {
            Some(set) => Some(set),
            None => if pair.0@ == name {
                Some(pair.1@)
            } else {
                None
            },
        },
    decreases vars.len(),
{
    let more = vars.push(pair);
    if vars.len() == 0 {
        assert(more.drop_first() =~= vars);
    } else {
        assert(more.drop_first() =~= vars.drop_first().push(pair));
        lemma_value_in_push(vars.drop_first(), pair, name);
    }
}

} // verus!

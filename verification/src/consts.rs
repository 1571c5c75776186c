//! The namespace `$const`: what is known of the machine when the program is
//! built.

use crate::host::Host;
use crate::remix::{namespace_answers, remix_or_none, yields, Tag};
use crate::rules::{
    answers_of, handle_chain, handled, lemma_answers_of, lemma_handled_widens, opt_text,
};
use crate::text::text_eq;
use vstd::prelude::*;

verus! {

/// The constants that `$const` knows.
#[derive(Clone, Copy, Debug, PartialEq, Eq)]
pub enum ConstName {
    /// `arch`, `architecture`.
    Arch,
    /// `deb_arch`, `deb-arch`.
    DebArch,
    /// `os`.
    Os,
    /// `family`.
    Family,
    /// `exe_suffix`.
    ExeSuffix,
    /// `exe_extension`.
    ExeExtension,
    /// `empty`.
    Empty,
}

/// The constant that `ident` names.
pub open spec fn const_of(ident: Seq<char>) -> Option<ConstName> {
    if ident == "arch"@ || ident == "architecture"@ {
        Some(ConstName::Arch)
    } else if ident == "deb_arch"@ || ident == "deb-arch"@ {
        Some(ConstName::DebArch)
    } else if ident == "os"@ {
        Some(ConstName::Os)
    } else if ident == "family"@ {
        Some(ConstName::Family)
    } else if ident == "exe_suffix"@ {
        Some(ConstName::ExeSuffix)
    } else if ident == "exe_extension"@ {
        Some(ConstName::ExeExtension)
    } else if ident == "empty"@ {
        Some(ConstName::Empty)
    } else {
        None
    }
}

/// The name that Debian gives to an architecture.
///
/// | architecture              | Debian     |
/// |---------------------------|------------|
/// | x86_64                    | amd64      |
/// | aarch64                   | arm64      |
/// | riscv64                   | riscv64    |
/// | arm, with vfpv3           | armhf      |
/// | arm                       | armel      |
/// | mips, little endian       | mipsel     |
/// | mips64, little endian     | mips64el   |
/// | s390x                     | s390x      |
/// | powerpc64, little endian  | ppc64el    |
/// | x86                       | i386       |
/// | any other                 | its own name |
pub open spec fn deb_arch_of(arch: Seq<char>, little_endian: bool, vfpv3: bool) -> Seq<char> {
    if arch == "x86_64"@ {
        "amd64"@
    } else if arch == "aarch64"@ {
        "arm64"@
    } else if arch == "riscv64"@ {
        "riscv64"@
    } else if arch == "arm"@ && vfpv3 {
        "armhf"@
    } else if arch == "arm"@ {
        "armel"@
    } else if arch == "mips"@ && little_endian {
        "mipsel"@
    } else if arch == "mips64"@ && little_endian {
        "mips64el"@
    } else if arch == "s390x"@ {
        "s390x"@
    } else if arch == "powerpc64"@ && little_endian {
        "ppc64el"@
    } else if arch == "x86"@ {
        "i386"@
    } else {
        arch
    }
}

/// The value of the constant `name` on `host`.
pub open spec fn const_text(name: ConstName, host: Host) -> Seq<char> {
    match name {
        ConstName::Arch => host.arch@,
        ConstName::DebArch => deb_arch_of(host.arch@, host.little_endian, host.vfpv3),
        ConstName::Os => host.os@,
        ConstName::Family => host.family@,
        ConstName::ExeSuffix => host.exe_suffix@,
        ConstName::ExeExtension => host.exe_extension@,
        ConstName::Empty => Seq::<char>::empty(),
    }
}

/// The architecture of the host's processor.
pub fn get_architecture(host: &Host) -> (arch: &str)
    ensures
        arch@ == host.arch@,
{
    host.arch.as_str()
}

/// The name of the host's operating system.
pub fn get_os_name(host: &Host) -> (os: &str)
    ensures
        os@ == host.os@,
{
    host.os.as_str()
}

/// The family of the host's operating system.
pub fn get_os_family(host: &Host) -> (family: &str)
    ensures
        family@ == host.family@,
{
    host.family.as_str()
}

/// The name that Debian gives to the host's architecture, such as `amd64`
/// for `x86_64`.
pub fn get_deb_arch(host: &Host) -> (name: String)
    ensures
        name@ == deb_arch_of(host.arch@, host.little_endian, host.vfpv3),
{
    let arch = host.arch.as_str();
    if text_eq(arch, "x86_64") {
        "amd64".to_owned()
    } else if text_eq(arch, "aarch64") {
        "arm64".to_owned()
    } else if text_eq(arch, "riscv64") {
        "riscv64".to_owned()
    } else if text_eq(arch, "arm") && host.vfpv3 {
        "armhf".to_owned()
    } else if text_eq(arch, "arm") {
        "armel".to_owned()
    } else if text_eq(arch, "mips") && host.little_endian {
        "mipsel".to_owned()
    } else if text_eq(arch, "mips64") && host.little_endian {
        "mips64el".to_owned()
    } else if text_eq(arch, "s390x") {
        "s390x".to_owned()
    } else if text_eq(arch, "powerpc64") && host.little_endian {
        "ppc64el".to_owned()
    } else if text_eq(arch, "x86") {
        "i386".to_owned()
    } else {
        arch.to_owned()
    }
}

impl ConstName {
    /// The constant that `ident` names.
    pub fn named(ident: &str) -> (name: Option<ConstName>)
        ensures
            name == const_of(ident@),
    {
        if text_eq(ident, "arch") || text_eq(ident, "architecture") {
            Some(ConstName::Arch)
        } else if text_eq(ident, "deb_arch") || text_eq(ident, "deb-arch") {
            Some(ConstName::DebArch)
        } else if text_eq(ident, "os") {
            Some(ConstName::Os)
        } else if text_eq(ident, "family") {
            Some(ConstName::Family)
        } else if text_eq(ident, "exe_suffix") {
            Some(ConstName::ExeSuffix)
        } else if text_eq(ident, "exe_extension") {
            Some(ConstName::ExeExtension)
        } else if text_eq(ident, "empty") {
            Some(ConstName::Empty)
        } else {
            None
        }
    }

    /// The value of the constant on `host`.
    pub fn value(self, host: &Host) -> (value: String)
        ensures
            value@ == const_text(self, *host),
    {
        match self {
            ConstName::Arch => host.arch.clone(),
            ConstName::DebArch => get_deb_arch(host),
            ConstName::Os => host.os.clone(),
            ConstName::Family => host.family.clone(),
            ConstName::ExeSuffix => host.exe_suffix.clone(),
            ConstName::ExeExtension => host.exe_extension.clone(),
            ConstName::Empty => String::new(),
        }
    }
}

/// Resolves `ident` in `$const: ident`: a constant by its name, or a remix
/// expression.
pub fn match_consts(ident: &str, host: &Host) -> (value: Option<String>)
    ensures
        yields(Tag::Const, ident@, *host, opt_text(value)),
    decreases ident@.len(), 3int,
{
    match ConstName::named(ident) {
        Some(name) => Some(name.value(host)),
        None => remix_or_none(ident, host),
    }
}

/// Resolves the chain of a `$const` expression.
pub fn handle_consts(ident: &str, host: &Host) -> (value: Option<String>)
    ensures
        handled(
            ident@,
            namespace_answers(Tag::Const, *host),
            namespace_answers(Tag::Const, *host),
            opt_text(value),
        ),
{
    let direct = |x: &str| -> (v: Option<String>)
        ensures
            yields(Tag::Const, x@, *host, opt_text(v)),
        { match_consts(x, host) };
    let each = |x: &str| -> (v: Option<String>)
        ensures
            yields(Tag::Const, x@, *host, opt_text(v)),
        { match_consts(x, host) };
    let value = handle_chain(ident, direct, each);
    proof {
        lemma_answers_of(direct, namespace_answers(Tag::Const, *host));
        lemma_answers_of(each, namespace_answers(Tag::Const, *host));
        lemma_handled_widens(
            ident@,
            answers_of(direct),
            answers_of(each),
            namespace_answers(Tag::Const, *host),
            namespace_answers(Tag::Const, *host),
            opt_text(value),
        );
    }
    value
}

} // verus!

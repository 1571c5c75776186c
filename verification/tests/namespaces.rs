use envpath::base_dirs::{
    below, choose_bin_dir, choose_font_dir, local_low_beside, match_base_dirs, set_android_dir,
    set_double_ended_path, windows_entries, BaseDir,
};
use envpath::consts::{
    get_architecture, get_deb_arch, get_os_family, get_os_name, match_consts, ConstName,
};
use envpath::project::{
    get_project_name, handle_project_dirs, match_proj_dirs, project_key_of, project_result,
    set_proj_name_opt_tuple, set_proj_path, ProjectDir, ProjectName,
};
use envpath::value::{match_values, ValueKind};
use envpath::{EnvPath, Host, ProjectError};
use std::path::Path;

fn host() -> Host {
    let mut host = Host::new("x86_64", "linux", "unix");
    host.add_var("HOME", "/");
    host.add_var("PATH", "/usr/local/bin:/usr/bin::/bin");
    host
}

fn windows() -> Host {
    let mut host = Host::new("x86_64", "windows", "windows");
    host.add_var("PATH", "C:\\Windows;C:\\bin");
    host.add_var("ProgramData", "D:\\Data");
    host
}

fn android() -> Host {
    Host::new("aarch64", "android", "unix")
}

#[test]
fn environment_lookups() {
    let mut host = Host::new("x86_64", "linux", "unix");
    assert_eq!(host.get_var("A"), None);
    host.add_var("A", "1");
    host.add_var("B", "2");
    host.add_var("A", "3");
    assert_eq!(host.get_var("A"), Some("1".to_string()));
    assert_eq!(host.get_var("B"), Some("2".to_string()));
    assert_eq!(host.get_var("a"), None);
    assert!(host.is_unix() && !host.is_windows() && !host.is_android());
    assert!(android().is_android());
    assert!(windows().is_windows());
}

#[test]
fn constants_of_the_host() {
    let mut host = host();
    host.exe_suffix = ".exe".to_string();
    host.exe_extension = "exe".to_string();
    assert_eq!(get_architecture(&host), "x86_64");
    assert_eq!(get_os_name(&host), "linux");
    assert_eq!(get_os_family(&host), "unix");
    assert_eq!(match_consts("arch", &host), Some("x86_64".to_string()));
    assert_eq!(match_consts("architecture", &host), Some("x86_64".to_string()));
    assert_eq!(match_consts("deb-arch", &host), Some("amd64".to_string()));
    assert_eq!(match_consts("deb_arch", &host), Some("amd64".to_string()));
    assert_eq!(match_consts("os", &host), Some("linux".to_string()));
    assert_eq!(match_consts("family", &host), Some("unix".to_string()));
    assert_eq!(match_consts("exe_suffix", &host), Some(".exe".to_string()));
    assert_eq!(match_consts("exe_extension", &host), Some("exe".to_string()));
    assert_eq!(match_consts("empty", &host), Some(String::new()));
    assert_eq!(match_consts("pkg", &host), None);
    assert_eq!(match_consts("Arch", &host), None);
    assert_eq!(ConstName::named("os"), Some(ConstName::Os));
    assert_eq!(ConstName::named("none"), None);
}

#[test]
fn debian_names_of_architectures() {
    let name = |arch: &str, little_endian: bool, vfpv3: bool| {
        let mut host = Host::new(arch, "linux", "unix");
        host.little_endian = little_endian;
        host.vfpv3 = vfpv3;
        get_deb_arch(&host)
    };
    assert_eq!(name("x86_64", true, false), "amd64");
    assert_eq!(name("aarch64", true, false), "arm64");
    assert_eq!(name("riscv64", true, false), "riscv64");
    assert_eq!(name("arm", true, true), "armhf");
    assert_eq!(name("arm", true, false), "armel");
    assert_eq!(name("mips", true, false), "mipsel");
    assert_eq!(name("mips", false, false), "mips");
    assert_eq!(name("mips64", true, false), "mips64el");
    assert_eq!(name("mips64", false, false), "mips64");
    assert_eq!(name("s390x", false, false), "s390x");
    assert_eq!(name("powerpc64", true, false), "ppc64el");
    assert_eq!(name("powerpc64", false, false), "powerpc64");
    assert_eq!(name("x86", true, false), "i386");
    assert_eq!(name("loongarch64", true, false), "loongarch64");
}

#[test]
fn values_made_on_demand() {
    let host = host();
    assert_eq!(match_values("empty", &host), Some(String::new()));
    assert_eq!(match_values("other", &host), None);
    assert_eq!(ValueKind::named("rand-5"), Some(ValueKind::Random(5)));
    assert_eq!(ValueKind::named("rand-+5"), Some(ValueKind::Random(5)));
    assert_eq!(ValueKind::named("rand-"), Some(ValueKind::Random(16)));
    assert_eq!(ValueKind::named("rand-x"), Some(ValueKind::Random(16)));
    assert_eq!(ValueKind::named("rand-3-4"), Some(ValueKind::Random(16)));
    assert_eq!(ValueKind::named("rand"), None);
    assert_eq!(ValueKind::named("empty"), Some(ValueKind::Empty));
    let text = match_values("rand-33", &host).unwrap();
    assert_eq!(text.len(), 33);
    assert!(text.chars().all(|c| c.is_ascii_alphanumeric()));
    assert_eq!(match_values("rand-0", &host), Some(String::new()));
    let other = match_values("rand-33", &host).unwrap();
    assert_ne!(text, other);
    assert_eq!(envpath::random::get_random_value(None).len(), 16);
}

#[test]
fn entries_of_the_path_list() {
    let host = host();
    assert_eq!(set_double_ended_path("first", &host), Some("/usr/local/bin".to_string()));
    assert_eq!(set_double_ended_path("last", &host), Some("/bin".to_string()));
    assert_eq!(set_double_ended_path("middle", &host), None);
    assert_eq!(match_base_dirs("path", &host), Some("/usr/local/bin".to_string()));
    assert_eq!(match_base_dirs("first-path", &host), Some("/usr/local/bin".to_string()));
    assert_eq!(match_base_dirs("last_path", &host), Some("/bin".to_string()));
    assert_eq!(set_double_ended_path("first", &windows()), Some("C:\\Windows".to_string()));
    assert_eq!(set_double_ended_path("last", &windows()), Some("C:\\bin".to_string()));
    assert_eq!(set_double_ended_path("first", &android()), None);
    let quoted = |list: &str| {
        let mut host = Host::new("x86_64", "windows", "windows");
        host.add_var("PATH", list);
        (set_double_ended_path("first", &host), set_double_ended_path("last", &host))
    };
    let some = |text: &str| Some(text.to_string());
    assert_eq!(quoted("c:\\foo;c:\\som\"e;di\"r;c:\\bar"), (some("c:\\foo"), some("c:\\bar")));
    assert_eq!(quoted("\"c:\\a;b\";c:\\c"), (some("c:\\a;b"), some("c:\\c")));
    assert_eq!(quoted("c:\\a;\"c:\\b;c\""), (some("c:\\a"), some("c:\\b;c")));
    assert_eq!(quoted("c:\\a;\"c:\\b;c"), (some("c:\\a"), some("c:\\b;c")));
    assert_eq!(quoted("a;b;"), (some("a"), some("")));
    assert_eq!(quoted(""), (some(""), some("")));
    assert_eq!(quoted("a:b"), (some("a:b"), some("a:b")));
    assert_eq!(
        windows_entries("c:\\foo;c:\\som\"e;di\"r;c:\\bar"),
        vec!["c:\\foo", "c:\\some;dir", "c:\\bar"]
    );
    let mut single = Host::new("x86_64", "linux", "unix");
    single.add_var("PATH", "/only");
    assert_eq!(set_double_ended_path("first", &single), Some("/only".to_string()));
    assert_eq!(set_double_ended_path("last", &single), Some("/only".to_string()));
}

#[test]
fn base_directories_by_name() {
    let host = host();
    assert_eq!(match_base_dirs("empty", &host), Some(String::new()));
    assert_eq!(match_base_dirs("nowhere", &host), None);
    assert_eq!(match_base_dirs("temp", &host), Some("/tmp".to_string()));
    assert_eq!(match_base_dirs("temporary", &host), Some("/tmp".to_string()));
    assert_eq!(match_base_dirs("tmp", &host), Some("/tmp".to_string()));
    assert_eq!(match_base_dirs("var-tmp", &host), Some("/var/tmp/envpath".to_string()));
    assert_eq!(match_base_dirs("var_tmp", &windows()), None);
    assert_eq!(match_base_dirs("sd", &host), None);
    assert_eq!(match_base_dirs("local-low", &host), None);
    assert_eq!(match_base_dirs("microsoft", &host), None);
    assert_eq!(match_base_dirs("program_files", &host), None);
    assert_eq!(match_base_dirs("cli-cache", &host), match_base_dirs("cache", &host));
    assert_eq!(match_base_dirs("cfg", &host), match_base_dirs("config", &host));
    let mut named = host.clone();
    assert_eq!(match_base_dirs("music", &named), None);
    named.audio_dir = Some("/m/Music".to_string());
    named.desktop_dir = Some("/m/Desktop".to_string());
    named.public_dir = Some("/m/Public".to_string());
    named.template_dir = Some("/m/Templates".to_string());
    named.video_dir = Some("/m/Videos".to_string());
    assert_eq!(match_base_dirs("music", &named), Some("/m/Music".to_string()));
    assert_eq!(match_base_dirs("audio", &named), Some("/m/Music".to_string()));
    assert_eq!(match_base_dirs("pic", &named), Some("/m/Music".to_string()));
    assert_eq!(match_base_dirs("desktop", &named), Some("/m/Desktop".to_string()));
    assert_eq!(match_base_dirs("pub", &named), Some("/m/Public".to_string()));
    assert_eq!(match_base_dirs("template", &named), Some("/m/Templates".to_string()));
    assert_eq!(match_base_dirs("movie", &named), Some("/m/Videos".to_string()));
    assert_eq!(match_base_dirs("desktop", &host), None);
    assert_eq!(BaseDir::named("typeface"), Some(BaseDir::Font));
    assert_eq!(BaseDir::named("movie"), Some(BaseDir::Video));
    assert_eq!(BaseDir::named("Video"), None);
    let random = match_base_dirs("tmp-rand", &host).unwrap();
    assert!(random.starts_with("/tmp/envpath_"));
    assert_eq!(random.len(), "/tmp/envpath_".len() + 16);
}

#[test]
fn base_directories_on_windows() {
    let host = windows();
    assert_eq!(match_base_dirs("progam-files", &host), Some("C:\\Program Files".to_string()));
    assert_eq!(
        match_base_dirs("program-files-x86", &host),
        Some("=C:\\Program Files (x86)".to_string())
    );
    assert_eq!(
        match_base_dirs("common-program-files", &host),
        Some("C:\\Program Files\\Common Files".to_string())
    );
    assert_eq!(
        match_base_dirs("common_program_files_x86", &host),
        Some("C:\\Program Files (x86)\\Common Files".to_string())
    );
    assert_eq!(match_base_dirs("program-data", &host), Some("D:\\Data".to_string()));
    assert_eq!(match_base_dirs("var-tmp", &host), None);
    let local = match_base_dirs("cli-data", &host);
    let low = match_base_dirs("local-low", &host);
    assert_eq!(
        low,
        local.and_then(|dir| {
            Path::new(&dir)
                .parent()
                .map(|up| up.join("LocalLow").to_string_lossy().into_owned())
        })
    );
    assert_eq!(
        match_base_dirs("microsoft", &host),
        match_base_dirs("data", &host)
            .map(|dir| Path::new(&dir).join("Microsoft").to_string_lossy().into_owned())
    );
}

#[test]
fn base_directories_on_android() {
    let host = android();
    assert_eq!(set_android_dir("Music"), Some("/storage/self/primary/Music".to_string()));
    assert_eq!(match_base_dirs("music", &host), Some("/storage/self/primary/Music".to_string()));
    assert_eq!(match_base_dirs("doc", &host), Some("/storage/self/primary/Documents".to_string()));
    assert_eq!(match_base_dirs("dl", &host), Some("/storage/self/primary/Download".to_string()));
    assert_eq!(match_base_dirs("pic", &host), Some("/storage/self/primary/Pictures".to_string()));
    assert_eq!(match_base_dirs("video", &host), Some("/storage/self/primary/Movies".to_string()));
    assert_eq!(
        match_base_dirs("local-data", &host),
        Some("/storage/self/primary/Android/data".to_string())
    );
    assert_eq!(match_base_dirs("sd", &host), Some("/storage/self/primary".to_string()));
}

#[test]
fn temporary_directories() {
    let mut host = host();
    assert_eq!(EnvPath::get_tmp_dir(&host), "/tmp");
    host.temp_dir = "/var/folders/t".to_string();
    assert_eq!(EnvPath::get_tmp_dir(&host), "/var/folders/t");
    host.temp_dir_read_only = true;
    let fallback = EnvPath::get_tmp_dir(&host);
    assert!(fallback == ".tmp" || fallback.ends_with("/tmp"));
    host.add_var("TMPDIR", "/my/tmp");
    assert_eq!(EnvPath::get_tmp_dir(&host), "/my/tmp");

    let named = EnvPath::get_tmp_random_dir(Some("run-"), Some(4), &host);
    assert!(named.starts_with("/my/tmp/run-"));
    assert_eq!(named.len(), "/my/tmp/run-".len() + 4);
    let bare = EnvPath::get_tmp_random_dir(Some("  "), Some(6), &host);
    assert!(bare.starts_with("/my/tmp/"));
    assert_eq!(bare.len(), "/my/tmp/".len() + 6);
    let default = EnvPath::get_tmp_random_dir(None, None, &host);
    assert!(default.starts_with("/my/tmp/envpath_"));
    assert_eq!(default.len(), "/my/tmp/envpath_".len() + 16);
}

fn name(qualifier: &str, organization: &str, application: &str) -> Option<ProjectName> {
    Some(ProjectName {
        qualifier: qualifier.to_string(),
        organization: organization.to_string(),
        application: application.to_string(),
    })
}

#[test]
fn project_names() {
    assert_eq!(get_project_name("$proj(com.moz.ff)"), name("com", "moz", "ff"));
    assert_eq!(get_project_name("$project( com. x. y )"), name("com", "x", "y"));
    assert_eq!(get_project_name("(org.x)"), name("org", "", "x"));
    assert_eq!(get_project_name("(app)"), name("", "", "app"));
    assert_eq!(get_project_name("(a.b.c.d.e)"), name("a", "b", "cde"));
    assert_eq!(get_project_name("(  me. tmm. wasm-module  ): data"), name("me", "tmm", "wasm-module"));
    assert_eq!(get_project_name("(a.(b).c)"), name("a", "(b)", "c"));
    assert_eq!(get_project_name("()"), name("", "", ""));
    assert_eq!(get_project_name("( x )").unwrap().label(), "x");
    assert_eq!(get_project_name("$proj"), None);
    assert_eq!(get_project_name("$proj(a.b"), None);
    assert_eq!(get_project_name("$proj a.b)"), None);
    assert_eq!(get_project_name(")a.b("), None);
    assert_eq!(name("com", "moz", "ff").unwrap().label(), "com.moz.ff");
    assert_eq!(name("org", "", "x").unwrap().label(), "org.x");
    assert_eq!(name("", "", "x").unwrap().label(), "x");
    assert_eq!(name("", "", "").unwrap().label(), "");
    assert_eq!(project_key_of("(com.a.b): cfg"), "cfg");
    assert_eq!(project_key_of("(com.a.b)\u{ff1a} data "), "data");
    assert_eq!(project_key_of("a: b \u{ff1a} c"), "c");
    assert_eq!(project_key_of("a \u{ff1a} b : c"), "c");
    assert_eq!(project_key_of("state"), "state");
    assert_eq!(project_key_of("x:"), "");
}

#[test]
fn project_directories_by_name() {
    let host = host();
    let (label, dirs) = set_proj_name_opt_tuple("$proj(com.moz.ff)").unwrap();
    assert_eq!(label, "com.moz.ff");
    assert!(set_proj_name_opt_tuple("$proj").is_none());
    assert_eq!(match_proj_dirs("empty", &label, dirs.as_ref(), &host), Some(String::new()));
    assert_eq!(match_proj_dirs("nothing", &label, dirs.as_ref(), &host), None);
    assert_eq!(match_proj_dirs("local-low", &label, dirs.as_ref(), &host), None);
    assert_eq!(match_proj_dirs("cache", &label, None, &host), None);
    assert_eq!(match_proj_dirs("runtime", &label, None, &host), None);
    assert_eq!(match_proj_dirs("path", &label, None, &host), Some("com.moz.ff".to_string()));
    assert_eq!(set_proj_path(&label, None, &host), Some("com.moz.ff".to_string()));
    assert_eq!(
        match_proj_dirs("env * HOME", &label, dirs.as_ref(), &host),
        Some("/".to_string())
    );
    if let Some(found) = dirs.as_ref() {
        assert_eq!(
            match_proj_dirs("cfg", &label, dirs.as_ref(), &host),
            Some(found.config_dir().to_string_lossy().into_owned())
        );
        assert_eq!(
            match_proj_dirs("cli-data", &label, dirs.as_ref(), &host),
            Some(found.data_local_dir().to_string_lossy().into_owned())
        );
        assert_eq!(
            match_proj_dirs("path", &label, dirs.as_ref(), &host),
            Some(found.project_path().to_string_lossy().into_owned())
        );
        assert_eq!(
            match_proj_dirs("state", &label, dirs.as_ref(), &host),
            found.state_dir().map(|dir| dir.to_string_lossy().into_owned())
        );
    }
    assert_eq!(ProjectDir::named("pref"), Some(ProjectDir::Preference));
    assert_eq!(ProjectDir::named("home"), None);
}

#[test]
fn project_directories_on_android() {
    let host = android();
    let cases = [
        ("path", "com.x.y"),
        ("cache", "/data/data/com.x.y/cache"),
        ("cfg", "/data/data/com.x.y/files"),
        ("data", "/data/data/com.x.y"),
        ("local-data", "/storage/self/primary/Android/data/com.x.y"),
        ("local_config", "/storage/self/primary/Android/data/com.x.y/files"),
        ("preference", "/data/data/com.x.y/files"),
    ];
    for (key, expected) in cases {
        assert_eq!(match_proj_dirs(key, "com.x.y", None, &host), Some(expected.to_string()));
    }
    assert_eq!(match_proj_dirs("state", "com.x.y", None, &host), None);
}

#[test]
fn project_chains_switch_groups() {
    let host = host();
    let of = |group: &str, key: &str| {
        let (label, dirs) = set_proj_name_opt_tuple(group).unwrap();
        match_proj_dirs(key, &label, dirs.as_ref(), &host)
    };
    assert_eq!(
        handle_project_dirs("$proj", "(a.b.c): cfg ? (d.e.f): data", &host),
        of("(a.b.c)", "cfg").or(of("(d.e.f)", "data"))
    );
    assert_eq!(
        handle_project_dirs("$proj", "(a.b.c): nothing ? (d.e.f): empty", &host),
        Some(String::new())
    );
    assert_eq!(
        handle_project_dirs("$proj(a.b.c)", "nothing ? path", &host),
        of("(a.b.c)", "path")
    );
    assert_eq!(
        handle_project_dirs("$proj(a.b.c)", "nothing ? (d.e.f): nothing ? path", &host),
        of("(d.e.f)", "path")
    );
    assert_eq!(handle_project_dirs("$proj(a.b.c)", "path", &host), of("(a.b.c)", "path"));
    assert_eq!(handle_project_dirs("$proj", "path", &host), None);
    assert_eq!(handle_project_dirs("$proj", "nothing ? empty", &host), None);
    assert_eq!(handle_project_dirs("$proj(a.b.c)", "?? path", &host), None);
    assert_eq!(
        handle_project_dirs("$proj(a.b.c)", "nothing \u{ff1f} (d.e.f)\u{ff1a} path", &host),
        of("(d.e.f)", "path")
    );
}

#[test]
fn asking_for_a_project() {
    assert_eq!(project_result(None).err(), Some(ProjectError::Unsupported));
    assert_eq!(
        ProjectError::Unsupported.message(),
        "Cannot generate ProjectDirs for your platform."
    );
    match EnvPath::new_project("org", "moz", "ff") {
        Ok(dirs) => assert_eq!(
            Some(dirs.config_dir().to_path_buf()),
            directories::ProjectDirs::from("org", "moz", "ff")
                .map(|found| found.config_dir().to_path_buf())
        ),
        Err(error) => assert_eq!(error, ProjectError::Unsupported),
    }
}

#[test]
fn places_for_executables_and_fonts() {
    let some = |text: &str| Some(text.to_string());
    let unix = host();
    let win = windows();
    let other = Host::new("wasm32", "unknown", "wasm");
    assert_eq!(choose_bin_dir(some("/x"), some("/m"), some("/h"), some("/l"), &unix), some("/x"));
    assert_eq!(choose_bin_dir(None, some("/m"), some("/h"), some("/l"), &unix), some("/h/.local/bin"));
    assert_eq!(choose_bin_dir(None, some("/m"), None, some("/l"), &unix), some("/l/bin"));
    assert_eq!(choose_bin_dir(None, some("/m"), None, None, &unix), None);
    assert_eq!(choose_bin_dir(None, some("/m"), some("/h"), some("/l"), &win), some("/m/WindowsApps"));
    assert_eq!(choose_bin_dir(None, None, some("/h"), some("/l"), &win), some("/l/bin"));
    assert_eq!(choose_bin_dir(None, some("/m"), some("/h"), some("/l"), &other), some("/l/bin"));
    assert_eq!(choose_font_dir(some("/f"), some("/m"), some("/d"), &unix), some("/f"));
    assert_eq!(choose_font_dir(None, some("/m"), some("/d"), &unix), some("/d/fonts"));
    assert_eq!(choose_font_dir(None, some("/m"), None, &unix), None);
    assert_eq!(choose_font_dir(None, some("/m"), some("/d"), &win), some("/m/Windows\\Fonts"));
    assert_eq!(choose_font_dir(None, None, some("/d"), &win), some("C:\\Windows\\Fonts"));
    assert_eq!(choose_font_dir(None, some("/m"), some("/d"), &other), None);
    assert_eq!(below(some("/a"), "b"), some("/a/b"));
    assert_eq!(below(None, "b"), None);
    assert_eq!(local_low_beside(some("/home/m/AppData/Local")), some("/home/m/AppData/LocalLow"));
    assert_eq!(local_low_beside(some("/")), None);
    assert_eq!(local_low_beside(None), None);
}

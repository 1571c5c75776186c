use envpath::{EnvPath, Host, Raw};
use std::borrow::Cow;
use std::path::PathBuf;

fn fixed_host() -> Host {
    let mut host = Host::new("x86_64", "linux", "unix");
    host.add_var("HOME", "/");
    host.add_var("USER", "m");
    host.add_var("PATH", "/usr/local/bin:/usr/bin:/bin");
    host
}

fn on_disk(path: &EnvPath) -> bool {
    PathBuf::from(path.path.clone().unwrap_or_default()).exists()
}

fn texts(raw: &Raw) -> Vec<String> {
    (0..raw.len()).map(|i| raw.get(i).to_string()).collect()
}

#[test]
fn envpath_core_clear_raw_doc() {
    let mut path = EnvPath::new(
        vec!["$env: xdg_data_home", "$const: pkg", "files"],
        &fixed_host(),
    );

    path.clear_raw();

    assert!(!on_disk(&path));

    assert!(path.get_raw().is_empty());
}

#[test]
fn envpath_core_set_raw_doc() {
    // use envpath::EnvPath;

    let mut path = EnvPath::new(vec!["$dir: cfg", "config.ron"], &fixed_host());
    assert_eq!(texts(path.get_raw()), &["$dir: cfg", "config.ron"]);

    path.set_raw(vec!["$project( com. x. y )", "cfg.toml"]);
    assert_eq!(texts(path.get_raw()), &["$project( com. x. y )", "cfg.toml"]);
}

#[test]
fn envpath_core_from_vec_or_slice() {
    let _v1 = EnvPath::from(vec!["$env:home"]);
    let _v2 = EnvPath::from_str_slice(&["$dir: home"]);

    let v3 = vec!["$env:home"];
    let path = EnvPath::from(v3.clone());
    assert_eq!(texts(path.get_raw()), &["$env:home"]);
}

#[test]
fn mod_clear_raw_doc() {
    let mut path = EnvPath::new_owned(
        vec![
            "$env: xdg_data_home".to_string(),
            "$const: pkg".to_string(),
            "files".to_string(),
        ],
        &fixed_host(),
    );

    path.clear_raw();

    assert!(!on_disk(&path));

    assert!(path.get_raw().is_empty());
}

#[test]
fn mod_set_raw_doc() {
    let mut path = EnvPath::create_from_str_slice(&["$dir: cfg", "config.ron"], &fixed_host());
    assert_eq!(texts(path.get_raw()), &["$dir: cfg", "config.ron"]);

    path.set_raw(vec!["$project( com. x. y )", "cfg.toml"]);
    assert_eq!(texts(path.get_raw()), &["$project( com. x. y )", "cfg.toml"]);
}

#[test]
fn mod_from_vec_or_slice() {
    let _v1 = EnvPath::from(vec!["$env:home".to_string()]);
    let _v2 = EnvPath::from_str_slice(&["$dir: home"]);

    let v3 = vec!["$env:home"];
    let path = EnvPath::from_str_slice(&v3);
    assert_eq!(texts(path.get_raw()), &["$env:home"]);
}

#[test]
fn raw_clear_raw_doc() {
    let mut path = EnvPath::new(
        vec!["$env: xdg_data_home", "$const: pkg", "files"],
        &fixed_host(),
    );

    path.clear_raw();

    assert!(!on_disk(&path));
}

#[test]
fn raw_sequences_in_three_forms() {
    let host = fixed_host();
    let borrowed = Raw::Ref(vec!["$env: user", "a"]);
    let mixed = Raw::Cow(vec![Cow::Borrowed("$env: user"), Cow::Owned("a".to_string())]);
    let owned = Raw::Owned(vec!["$env: user".to_string(), "a".to_string()]);
    for raw in [&borrowed, &mixed, &owned] {
        assert!(!raw.is_empty());
        assert_eq!(raw.len(), 2);
        assert_eq!(raw.get(0), "$env: user");
        assert_eq!(raw.get(1), "a");
        assert_eq!(raw.parse(&host), Some("m/a".to_string()));
    }
    assert!(Raw::default().is_empty());
    assert_eq!(Raw::default(), Raw::Ref(Vec::new()));
    assert!(Raw::Owned(Vec::new()).is_empty());
    assert!(Raw::Cow(Vec::new()).is_empty());
}

#[test]
fn raw_sequence_can_be_changed_in_place() {
    let host = fixed_host();
    let mut path = EnvPath::new(vec!["a", "b"], &host);
    assert_eq!(path.path, Some("a/b".to_string()));
    *path.get_raw_mut() = Raw::Owned(vec!["c".to_string()]);
    assert_eq!(texts(path.get_raw()), &["c"]);
    assert_eq!(path.path, Some("a/b".to_string()));
    let path = path.de(&host);
    assert_eq!(path.path, Some("c".to_string()));
}

#[test]
fn conversions_do_not_resolve() {
    let borrowed = EnvPath::from(vec!["$env: user"]);
    assert_eq!(borrowed.raw, Raw::Ref(vec!["$env: user"]));
    assert_eq!(borrowed.path, None);
    let owned = EnvPath::from(vec!["$env: user".to_string()]);
    assert_eq!(owned.raw, Raw::Owned(vec!["$env: user".to_string()]));
    assert_eq!(owned.path, None);
    let copied = EnvPath::from_str_slice(&["x", "y"]);
    assert_eq!(copied.raw, Raw::Owned(vec!["x".to_string(), "y".to_string()]));
    assert_eq!(copied.path, None);
    let fresh = EnvPath::default();
    assert!(fresh.get_raw().is_empty());
    assert_eq!(fresh.path, None);
}

#[test]
fn constructors_resolve_at_once() {
    let host = fixed_host();
    let borrowed = EnvPath::new(vec!["$env: user", "x"], &host);
    assert_eq!(borrowed.raw, Raw::Ref(vec!["$env: user", "x"]));
    assert_eq!(borrowed.path, Some("m/x".to_string()));
    let owned = EnvPath::new_owned(vec!["$env: user".to_string()], &host);
    assert_eq!(owned.raw, Raw::Owned(vec!["$env: user".to_string()]));
    assert_eq!(owned.path, Some("m".to_string()));
    let mixed = EnvPath::new_cow(vec![Cow::Borrowed("$env: home")], &host);
    assert_eq!(mixed.raw, Raw::Cow(vec![Cow::Borrowed("$env: home")]));
    assert_eq!(mixed.path, Some("/".to_string()));
    let copied = EnvPath::create_from_str_slice(&["$env: user", "y"], &host);
    assert_eq!(copied.path, Some("m/y".to_string()));
    let mut replaced = EnvPath::new(vec!["a"], &host);
    replaced.set_raw(vec!["b"]);
    assert_eq!(replaced.raw, Raw::Ref(vec!["b"]));
    assert_eq!(replaced.path, Some("a".to_string()));
    replaced.clear_raw();
    assert_eq!(replaced.raw, Raw::Ref(Vec::new()));
    assert_eq!(replaced.path, Some("a".to_string()));
}

use envpath::os_env::{handle_envs, normalize_env_chain};
use envpath::parser::{assemble, join_component, resolve_component, resolve_expression};
use envpath::project::{parse_proj_dir_rules_with, ProjectName};
use envpath::rules::{handle_chain, parse_dir_rules, parse_dir_rules_with};
use envpath::{EnvPath, Host};
use std::ops::ControlFlow;

const MISSING: &str = "/definitely/not/there";

fn host() -> Host {
    let mut host = Host::new("x86_64", "linux", "unix");
    host.add_var("HOME", "/");
    host.add_var("home", "/lower");
    host.add_var("USER", "m");
    host.add_var("PLACE", MISSING);
    host.add_var("XDG_DATA_HOME", "/data-home");
    host
}

fn table(ident: &str) -> Option<String> {
    match ident {
        "root" => Some("/".to_string()),
        "gone" => Some(MISSING.to_string()),
        "word" => Some("word".to_string()),
        _ => None,
    }
}

#[test]
fn one_alternative_is_a_plain_lookup() {
    assert_eq!(handle_chain("word", table, table), table("word"));
    assert_eq!(handle_chain("other", table, table), None);
    assert_eq!(
        parse_dir_rules("word", table, '?'),
        ControlFlow::Continue(Some("word".to_string()))
    );
    assert_eq!(handle_envs("USER", &host()), Some("m".to_string()));
    assert_eq!(handle_envs("NOBODY", &host()), None);
}

#[test]
fn question_mark_takes_the_first_value() {
    assert_eq!(
        parse_dir_rules("gone ? root", table, '?'),
        ControlFlow::Break(Some(MISSING.to_string()))
    );
    assert_eq!(
        parse_dir_rules("none ? root", table, '?'),
        ControlFlow::Continue(Some("/".to_string()))
    );
    assert_eq!(parse_dir_rules("none ? nil", table, '?'), ControlFlow::Continue(None));
    assert_eq!(handle_chain("gone ? root", table, table), Some(MISSING.to_string()));
    assert_eq!(handle_chain("none ? root", table, table), Some("/".to_string()));
}

#[test]
fn later_alternatives_are_not_asked() {
    let asked = std::cell::RefCell::new(Vec::new());
    let lookup = |ident: &str| {
        asked.borrow_mut().push(ident.to_string());
        table(ident)
    };
    assert_eq!(
        parse_dir_rules("none ? word ? root ? gone", lookup, '?'),
        ControlFlow::Break(Some("word".to_string()))
    );
    assert_eq!(*asked.borrow(), vec!["none".to_string(), "word".to_string()]);
}

#[test]
fn double_question_mark_wants_the_path_on_disk() {
    assert_eq!(
        parse_dir_rules("root ?? word", table, '?'),
        ControlFlow::Break(Some("/".to_string()))
    );
    assert_eq!(
        parse_dir_rules("gone ?? word", table, '?'),
        ControlFlow::Continue(Some("word".to_string()))
    );
    assert_eq!(
        parse_dir_rules("none ?? word", table, '?'),
        ControlFlow::Continue(Some("word".to_string()))
    );
    assert_eq!(
        parse_dir_rules("gone ?? word ?? root", table, '?'),
        ControlFlow::Continue(Some("/".to_string()))
    );
    assert_eq!(
        parse_dir_rules("gone ?? root ?? word", table, '?'),
        ControlFlow::Break(Some("/".to_string()))
    );
    assert_eq!(
        parse_dir_rules("gone ?? word ?? none ? root", table, '?'),
        ControlFlow::Continue(Some("/".to_string()))
    );
}

#[test]
fn dangling_separators() {
    assert_eq!(parse_dir_rules("gone ??", table, '?'), ControlFlow::Continue(None));
    assert_eq!(
        parse_dir_rules("root ??", table, '?'),
        ControlFlow::Break(Some("/".to_string()))
    );
    assert_eq!(
        parse_dir_rules("root ?", table, '?'),
        ControlFlow::Break(Some("/".to_string()))
    );
    assert_eq!(parse_dir_rules("gone ?", table, '?'), ControlFlow::Continue(None));
    assert_eq!(
        parse_dir_rules("?? word", table, '?'),
        ControlFlow::Continue(Some("word".to_string()))
    );
    assert_eq!(parse_dir_rules("", table, '?'), ControlFlow::Continue(None));
    assert_eq!(parse_dir_rules("?", table, '?'), ControlFlow::Continue(None));
}

#[test]
fn full_width_question_marks() {
    assert_eq!(
        handle_chain("gone \u{ff1f}\u{ff1f} none \u{ff1f} word", table, table),
        handle_chain("gone ?? none ? word", table, table)
    );
    assert_eq!(
        handle_chain("gone \u{ff1f}\u{ff1f} none \u{ff1f} word", table, table),
        Some("word".to_string())
    );
    let host = host();
    assert_eq!(
        resolve_component("$env \u{ff1a} nobody \u{ff1f} place \u{ff1f}\u{ff1f} user", &host),
        resolve_component("$env : nobody ? place ?? user", &host)
    );
    assert_eq!(
        resolve_component("$env \u{ff1a} nobody \u{ff1f} place \u{ff1f}\u{ff1f} user", &host),
        Some("m".to_string())
    );
    assert_eq!(
        resolve_component("$proj \u{ff1a} (a.b.c)\u{ff1a} nothing \u{ff1f} env * USER", &host),
        resolve_component("$proj : (a.b.c): nothing ? env * USER", &host)
    );
    assert_eq!(
        resolve_component("$proj \u{ff1a} (a.b.c)\u{ff1a} nothing \u{ff1f} env * USER", &host),
        Some("m".to_string())
    );
}

#[test]
fn env_names_are_spelled_in_upper_case() {
    assert_eq!(normalize_env_chain("xdg-data-home ?? home"), "XDG_DATA_HOME ?? HOME");
    assert_eq!(normalize_env_chain("user ? env * home"), "USER ? env * home");
    assert_eq!(normalize_env_chain("env * home ?? a-b ? dir*x-y ?"), "env * home ?? A_B ? dir*x-y ?");
    assert_eq!(normalize_env_chain("a-b \u{ff1f} c*d \u{ff1f} e"), "A_B \u{ff1f} c*d \u{ff1f} E");
    assert_eq!(normalize_env_chain("env * home"), "env * home");
    assert_eq!(normalize_env_chain("x-y"), "X_Y");
    assert_eq!(normalize_env_chain(""), "");
    let host = host();
    assert_eq!(resolve_expression("$env", "home", &host), Some("/".to_string()));
    assert_eq!(resolve_expression("$env", "xdg-data-home", &host), Some("/data-home".to_string()));
}

#[test]
fn remix_takes_the_name_as_it_stands() {
    let host = host();
    assert_eq!(resolve_expression("$const", "none ? env * home", &host), Some("/lower".to_string()));
    assert_eq!(resolve_expression("$const", "none ? env * HOME", &host), Some("/".to_string()));
    assert_eq!(resolve_expression("$const", "none ? env*home", &host), Some("/lower".to_string()));
    assert_eq!(resolve_expression("$const", "none ? env * xdg-data-home", &host), None);
    assert_eq!(resolve_expression("$env", "nobody ? env * home", &host), Some("/lower".to_string()));
    assert_eq!(resolve_expression("$env", "env * home", &host), Some("/lower".to_string()));
    assert_eq!(resolve_expression("$env", "env * HOME", &host), Some("/".to_string()));
    assert_eq!(resolve_expression("$env", "env * nobody", &host), None);
    assert_eq!(resolve_expression("$env", "const * os", &host), Some("linux".to_string()));
    assert_eq!(resolve_expression("$dir", "nowhere ? const * os", &host), Some("linux".to_string()));
    assert_eq!(resolve_expression("$dir", "environment * home ? empty", &host), Some(String::new()));
    assert_eq!(resolve_expression("$val", "dir * val * const * family", &host), Some("unix".to_string()));
}

#[test]
fn one_star_leaves_the_other_alternatives_to_be_spelled() {
    let mut host = Host::new("x86_64", "linux", "unix");
    host.add_var("HOME", "/h");
    host.add_var("FOO", "/f");
    assert_eq!(resolve_expression("$env", "home ? env * FOO", &host), Some("/h".to_string()));
    assert_eq!(resolve_expression("$env", "nobody ? env * FOO", &host), Some("/f".to_string()));
    assert_eq!(resolve_expression("$env", "env * foo ? home", &host), Some("/h".to_string()));
    assert_eq!(resolve_component("$env: home ? env * FOO", &host), Some("/h".to_string()));
    let path = EnvPath::new(vec!["$env: home ? env * FOO"], &host);
    assert_eq!(path.path, Some("/h".to_string()));
}

#[test]
fn unknown_tags_are_literals() {
    let host = host();
    assert_eq!(resolve_expression("$nothing", "home", &host), None);
    assert_eq!(resolve_component("$nothing: home", &host), Some("$nothing: home".to_string()));
    assert_eq!(resolve_component(" plain text ", &host), Some(" plain text ".to_string()));
    assert_eq!(resolve_component("C:", &host), Some("C:".to_string()));
    assert_eq!(resolve_component("", &host), Some(String::new()));
    assert_eq!(resolve_component("  $env  :  user  ", &host), Some("m".to_string()));
    assert_eq!(resolve_component("$ENV: user", &host), Some("$ENV: user".to_string()));
}

#[test]
fn unresolved_expressions_are_absent() {
    let host = host();
    assert_eq!(resolve_component("  $env: nobody  ", &host), None);
    assert_eq!(resolve_component("$env: nobody ? nothing", &host), None);
    assert_eq!(resolve_component("$env: place ??", &host), None);
    assert_eq!(resolve_component("$const: pkg", &host), None);
    assert_eq!(resolve_component("$dir: nowhere", &host), None);
    assert_eq!(resolve_component("$val: nothing", &host), None);
    assert_eq!(resolve_component("$proj: cfg", &host), None);
    assert_eq!(resolve_component("$project(a.b.c): nothing", &host), None);
    assert_eq!(resolve_component("$const: empty", &host), Some(String::new()));
    assert_eq!(EnvPath::new(vec!["$env: nobody"], &host).path, None);
    assert_eq!(EnvPath::new(vec!["base", "$env: nobody"], &host).path, None);
    assert_eq!(EnvPath::new(vec!["$env: nobody", "rest"], &host).path, None);
    assert_eq!(EnvPath::new(vec!["$env: user", "$dir: nowhere", "rest"], &host).path, None);
    assert_eq!(
        EnvPath::new(vec!["$env: user", "$nothing: x", "rest"], &host).path,
        Some("m/$nothing: x/rest".to_string())
    );
}

#[test]
fn literal_sequences_are_joined_unchanged() {
    let host = host();
    let path = EnvPath::new(vec!["usr", "local", "bin"], &host);
    assert_eq!(path.path, Some("usr/local/bin".to_string()));
    let path = EnvPath::new(vec!["/usr", "share"], &host);
    assert_eq!(path.path, Some("/usr/share".to_string()));
    let path = EnvPath::new(vec!["one"], &host);
    assert_eq!(path.path, Some("one".to_string()));
}

#[test]
fn expressions_and_literals_are_joined() {
    let host = host();
    let path = EnvPath::new(vec!["$env: place ?? home", ".local", "$const: os"], &host);
    assert_eq!(path.path, Some("/.local/linux".to_string()));
    let path = EnvPath::new(vec!["base", "$env: nobody ? user"], &host);
    assert_eq!(path.path, Some("base/m".to_string()));
}

#[test]
fn empty_sequence_is_the_empty_path() {
    let path = EnvPath::new(Vec::new(), &host());
    assert_eq!(path.path, Some(String::new()));
    assert!(path.get_raw().is_empty());
    assert_eq!(path.get_raw().parse(&host()), Some(String::new()));
}

#[test]
fn absent_component_makes_the_path_absent() {
    assert_eq!(assemble(&vec![]), Some(String::new()));
    assert_eq!(
        assemble(&vec![Some("a".to_string()), Some("b".to_string())]),
        Some("a/b".to_string())
    );
    assert_eq!(assemble(&vec![Some("a".to_string()), None, Some("b".to_string())]), None);
    assert_eq!(assemble(&vec![None]), None);
    assert_eq!(join_component(None, Some("a".to_string())), None);
    assert_eq!(join_component(Some("a".to_string()), None), None);
    assert_eq!(
        join_component(Some("a".to_string()), Some("/b".to_string())),
        Some("/b".to_string())
    );
}

#[test]
fn resolving_leaves_the_raw_sequence() {
    let host = host();
    let path = EnvPath::from(vec!["$env: user", "x"]);
    assert_eq!(path.path, None);
    let resolved = path.clone().de(&host);
    assert_eq!(resolved.raw, path.raw);
    assert_eq!(resolved.path, Some("m/x".to_string()));
}

#[test]
fn question_mark_never_looks_at_the_disk() {
    for on_disk in [true, false] {
        let probe = |_: &str| on_disk;
        assert_eq!(
            parse_dir_rules_with("word ? root", table, '?', probe),
            ControlFlow::Break(Some("word".to_string()))
        );
        assert_eq!(
            parse_dir_rules_with("none ? word", table, '?', probe),
            ControlFlow::Continue(Some("word".to_string()))
        );
        assert_eq!(
            parse_dir_rules_with("none ? nil ? gone ? word", table, '?', probe),
            ControlFlow::Break(Some(MISSING.to_string()))
        );
    }
}

#[test]
fn double_question_mark_follows_the_disk() {
    let present = |_: &str| true;
    let absent = |_: &str| false;
    assert_eq!(
        parse_dir_rules_with("word ?? root", table, '?', present),
        ControlFlow::Break(Some("word".to_string()))
    );
    assert_eq!(
        parse_dir_rules_with("word ?? root", table, '?', absent),
        ControlFlow::Continue(Some("/".to_string()))
    );
    assert_eq!(
        parse_dir_rules_with("word ?? root ?? gone", table, '?', absent),
        ControlFlow::Continue(Some(MISSING.to_string()))
    );
    assert_eq!(
        parse_dir_rules_with("word ?? root ??", table, '?', absent),
        ControlFlow::Continue(None)
    );
    assert_eq!(
        parse_dir_rules_with("none ?? root ??", table, '?', present),
        ControlFlow::Break(Some("/".to_string()))
    );
    let only_word = |path: &str| path == "word";
    assert_eq!(
        parse_dir_rules_with("gone ?? root ?? word ?? nil", table, '?', only_word),
        ControlFlow::Break(Some("word".to_string()))
    );
    let asked = std::cell::RefCell::new(Vec::new());
    let recording = |path: &str| {
        asked.borrow_mut().push(path.to_string());
        false
    };
    assert_eq!(
        parse_dir_rules_with("gone ?? none ?? word ? root", table, '?', recording),
        ControlFlow::Break(Some("word".to_string()))
    );
    assert_eq!(*asked.borrow(), vec![MISSING.to_string()]);
}

fn projects(name: &ProjectName, key: &str) -> Option<String> {
    match (name.application.as_str(), key) {
        ("c", "x") => Some("abc-x".to_string()),
        ("f", "y") => Some("def-y".to_string()),
        ("f", "x") => Some("def-x".to_string()),
        ("tag", "y") => Some(format!("{}-{}-tag-y", name.qualifier, name.organization)),
        _ => None,
    }
}

#[test]
fn each_group_has_its_own_project() {
    let absent = |_: &str| false;
    let present = |_: &str| true;
    let walk = |chain: &str| parse_proj_dir_rules_with("$proj(q.o.tag)", chain, '?', projects, absent);
    assert_eq!(walk("(a.b.c): x ? (d.e.f): y"), ControlFlow::Break(Some("abc-x".to_string())));
    assert_eq!(walk("(a.b.c): z ? (d.e.f): y"), ControlFlow::Continue(Some("def-y".to_string())));
    assert_eq!(walk("(a.b.c): z ? (d.e.f): z"), ControlFlow::Continue(None));
    assert_eq!(walk("(a.b.c): z ? (d.e.f): z ? x"), ControlFlow::Continue(Some("def-x".to_string())));
    assert_eq!(walk("(a.b.c): z ? x ? (d.e.f): y"), ControlFlow::Break(Some("abc-x".to_string())));
    assert_eq!(walk("(a.b.c): x ?? (d.e.f): y"), ControlFlow::Continue(Some("def-y".to_string())));
    assert_eq!(walk("y"), ControlFlow::Continue(Some("q-o-tag-y".to_string())));
    assert_eq!(walk("z ? y"), ControlFlow::Continue(Some("q-o-tag-y".to_string())));
    assert_eq!(walk("z ? (d.e.f): z ? y"), ControlFlow::Continue(Some("def-y".to_string())));
    assert_eq!(walk("?? y"), ControlFlow::Break(None));
    assert_eq!(walk(""), ControlFlow::Continue(None));
    assert_eq!(
        parse_proj_dir_rules_with("$proj", "y ? (d.e.f): y", '?', projects, absent),
        ControlFlow::Break(None)
    );
    assert_eq!(
        parse_proj_dir_rules_with("$proj", "(a.b.c): x ?? (d.e.f): y", '?', projects, present),
        ControlFlow::Break(Some("abc-x".to_string()))
    );
    assert_eq!(
        parse_proj_dir_rules_with(
            "$proj",
            "(a.b.c)\u{ff1a} z \u{ff1f} (d.e.f)\u{ff1a} y",
            '\u{ff1f}',
            projects,
            absent
        ),
        ControlFlow::Continue(Some("def-y".to_string()))
    );
}

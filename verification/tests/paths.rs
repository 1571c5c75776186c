use envpath::chunks::split_n;
use envpath::consts::get_deb_arch;
use envpath::random::get_random_value;
use envpath::text::find;
use envpath::{EnvPath, Host};
use rand::{distributions::Alphanumeric, Rng};
use std::path::PathBuf;

/// A machine for the tests.
fn fixed_host() -> Host {
    let mut host = Host::new("x86_64", "linux", "unix");
    host.add_var("HOME", "/");
    host.add_var("USER", "m");
    host.add_var("PATH", "/usr/local/bin:/usr/bin:/bin");
    host
}

fn as_path(path: &EnvPath) -> PathBuf {
    PathBuf::from(path.path.clone().unwrap_or_default())
}

#[test]
fn print_deb_arch() {
    let arch = get_deb_arch(&fixed_host());
    println!("{:?}", arch);
    assert!(!arch.is_empty());
}

#[test]
fn strange_dir() {
    let host = fixed_host();
    let mut path =
        EnvPath::from(vec!["$dir: states ?? template ?? video", " $const: pkg  "]).de(&host);
    println!("{}", as_path(&path).display());

    path.set_raw(vec![" $dir:  bin ?? first_path  "]);
    println!("{}", as_path(&path.de(&host)).display());
}

#[test]
fn remix_dir() {
    let host = fixed_host();
    let p = EnvPath::new(vec!["$env: user ?? dir * cfg ? empty"], &host);
    println!("{:?}", p);

    let other = EnvPath::new(vec!["$dir: runtimes ?? test ? env * HOME"], &host);
    println!("{:?}", other);
}

#[test]
fn random_tmp_dir() {
    let random = rand::thread_rng()
        .sample_iter(&Alphanumeric)
        .take(16)
        .map(char::from)
        .collect::<String>();

    let dir = PathBuf::from(EnvPath::get_tmp_dir(&fixed_host())).join(random);

    println!("{:?}", &dir);
}

#[test]
fn get_random_tmp_dir() {
    let dir = EnvPath::get_tmp_random_dir(None, None, &fixed_host());
    // &dir = "/tmp/envpath_Y1NNxaMhchjEAAMn"
    println!("{:?}", &dir);
    assert!(dir.contains("envpath_"));
}

#[test]
fn const_dirs_test_const_dir() {
    let v = EnvPath::from(vec!["$const: family ?? os"]);
    println!("{}", as_path(&v.de(&fixed_host())).display());
}

#[test]
fn mod_test_const_dir() {
    let host = fixed_host();
    let v = EnvPath::from(vec!["$const: family ?? os"]);
    println!("{}", as_path(&v.de(&host)).display());

    let p = EnvPath::new(vec!["$const: empty ?? dir * config"], &host);
    println!("{}", as_path(&p).display());
}

#[test]
fn from_iter_ref() {
    let arr = vec!["$dir: data", "test"];
    let path = EnvPath::from(arr.clone());
    println!("{:?}", arr);
    println!("{:?}", path.de(&fixed_host()));
}

#[test]
fn new_env_path() {
    let host = fixed_host();
    let arr = ["$dir: cfg", "test2"].map(|x| x.to_string());
    let path = EnvPath::new_owned(arr.to_vec(), &host);
    println!("{:?} {:?}", &path, &arr);

    let arr = [
        "$env: home",
        ".local",
        "share",
        "$const: pkg",
        "$const: ver",
    ];

    let path = EnvPath::new_cow(arr.map(std::borrow::Cow::Borrowed).to_vec(), &host);
    println!("{} {}", as_path(&path).display(), as_path(&path).exists());
}

#[test]
fn test_complex_envs() {
    let s = EnvPath::create_from_str_slice(
        &[
            "$env       : user ?? aaa ? bbb ? ccc ? xdg_data_home ?? home",
            "$const   :    pkg",
            "$env   :      this_is-a-strange-env ?? to_avoid_conflicts_with_folder_names",
            "$env   ： xdg ？ uid ？ user",
        ],
        &fixed_host(),
    );
    println!("{}", as_path(&s).display());
}

#[test]
fn find_the_first_colon() {
    let s = "$project(com.x)";
    println!("{:?}", s.find('('));
    assert_eq!(find(s, '('), s.find('('));
}

#[test]
fn split_to_two_chunks() {
    const CHUNK_NUM: usize = 2;
    // let s = " $env：xdg ： cfg";
    let s = " $env";
    let split_s = |c| {
        s.splitn(CHUNK_NUM, c)
            .map(|x| x.trim())
            .collect::<Vec<_>>()
    };
    println!("{:?}", split_s('：'));
    assert_eq!(split_n(s, '：'), split_s('：'));
    assert_eq!(split_n(" $env：xdg ： cfg", '：'), vec!["$env", "xdg ： cfg"]);
}

#[test]
fn print_unicode_mark() {
    for i in ['?', '？', ' '].map(|x| x as u32) {
        println!(r#"\u{{{i:X}}}"#)
    }
    assert_eq!(envpath::separator::HWQM, '?');
    assert_eq!(envpath::separator::FWQM, '？');
    assert_eq!(envpath::separator::NO_SEPARATOR, ' ');
}

#[test]
fn deser_vec() {
    let v = EnvPath::from(vec!["  $env  :  home  "]).de(&fixed_host());
    println!("{:?}", v);
}

#[test]
fn deser_doc() {
    // use envpath::EnvPath;
    let path = EnvPath::from(vec!["$env: home"]).de(&fixed_host());
    println!("{} {}", as_path(&path).display(), as_path(&path).exists());
}

#[test]
fn test_proj_dir() {
    let path = EnvPath::from(vec![
        "$project(me. tmm. store-demo): cfg ? runtime ??  (    me. tmm. wasm-module  )： data ?? state ? cfg ?",
    ])
    .de(&fixed_host());
    println!("{}", as_path(&path).display());
}

#[test]
fn test_proj_dir_question_mark() {
    let host = fixed_host();
    let path = EnvPath::from(vec![
        "$project(me. tmm. store-demo): local-cfg ? runtime ？？  (    me. tmm. wasm-module  )： data ？？ state ？？ cfg",
    ])
    .de(&host);
    println!("{}", as_path(&path).display());

    let path2 = EnvPath::from(vec!["
            $proj (com . moz . ff )：runtimes ？ data ？？ state ？？ 
            (com . gg . cr)： cfg ？？ cache ？ 
            (com . ms . eg)： local-data ？ data
            "])
    .de(&host);
    println!("{}", as_path(&path2).display());
}

#[test]
fn proj_env() {
    let p = EnvPath::new(vec!["$proj (org.x) : data ?? env * HOME"], &fixed_host());
    println!("{}", as_path(&p).display());
}

#[test]
fn remix_proj_and_env() {
    let host = fixed_host();
    let p = EnvPath::new(vec!["$env: user ?? proj * (com.xy.z):cfg ? HOME"], &host);
    println!("{:?}", p);

    let other = EnvPath::new(vec!["$proj * (org. a . b ): runtimes ? env * HOME"], &host);
    println!("{:?}", other);
}

#[test]
fn random_value() {
    let val = get_random_value(Some(3));
    println!("{:?}", val);
    assert_eq!(val.len(), 3);
    assert!(val.chars().all(|c| c.is_ascii_alphanumeric()));
}

#[test]
fn readme_doc_quick_start_0() {
    let v = EnvPath::from(vec!["$dir: data", "$const: pkg", "$env: test_qwq", "app"])
        .de(&fixed_host());
    println!("{} {}", as_path(&v).display(), as_path(&v).exists());
}

#[test]
fn test_value() {
    let host = fixed_host();
    let v = EnvPath::from(vec!["$val: empty ??  rand-2"]);
    println!("{}", as_path(&v.de(&host)).display());

    let p = EnvPath::new(vec!["$const: empty ?? val * rand-33"], &host);
    println!("{}", as_path(&p).display());
}

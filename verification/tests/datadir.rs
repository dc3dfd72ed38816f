use bigfred_commons::datadir::Environment;
use bigfred_commons::fspath::FsPath;
use bigfred_commons::path;
use bigfred_commons::root;
use bigfred_commons::set_root;
use bigfred_commons::DataDir;
use bigfred_commons::EnvPolicy;
use bigfred_commons::PathRule;
use bigfred_commons::DEFAULT_ROOT;
use bigfred_commons::ENV_BIGFRED_DATA_DIR;
use bigfred_commons::ENV_DATA_DIR;

fn env(data_dir: Option<&str>, bigfred: Option<&str>) -> Environment {
    Environment {
        data_dir: data_dir.map(|v| v.as_bytes().to_vec()),
        bigfred_data_dir: bigfred.map(|v| v.as_bytes().to_vec()),
    }
}

#[test]
fn root_defaults_to_data() {
    assert_eq!(root(&env(None, None)), FsPath::new(DEFAULT_ROOT));
}

#[test]
fn data_dir_absolute_wins() {
    let env = env(Some("/tmp/bigfred-shared-daemon-dd-1"), None);
    let dir = FsPath::new("/tmp/bigfred-shared-daemon-dd-1");
    assert_eq!(root(&env), dir);
    assert_eq!(
        path(&env, &[b"etc".as_slice(), b"micronet.json".as_slice()]),
        dir.join(b"etc/micronet.json")
    );
}

#[test]
fn relative_data_dir_ignored() {
    assert_eq!(
        root(&env(Some("relative/path"), None)),
        FsPath::new(DEFAULT_ROOT)
    );
}

#[test]
fn empty_data_dir_ignored() {
    assert_eq!(root(&env(Some(""), None)), FsPath::new(DEFAULT_ROOT));
}

#[test]
fn bigfred_env_wins_over_data_dir() {
    let env = env(Some("/data-from-data"), Some("/data-from-bf"));
    let d = DataDir::resolve(&env, EnvPolicy::BigfredThenDataDir, PathRule::AbsoluteOnly);
    assert_eq!(d.as_path(), &FsPath::new("/data-from-bf"));
    let d = DataDir::resolve(&env, EnvPolicy::DataDir, PathRule::AbsoluteOnly);
    assert_eq!(d.as_path(), &FsPath::new("/data-from-data"));
}

#[test]
fn accept_any_keeps_relative() {
    let env = env(None, Some("rel"));
    let d = DataDir::resolve(&env, EnvPolicy::BigfredThenDataDir, PathRule::AcceptAny);
    assert_eq!(d.as_path(), &FsPath::new("rel"));
}

#[test]
fn accept_any_wants_text_and_takes_the_empty_one() {
    let bytes = Environment {
        data_dir: Some(b"/a\xff".to_vec()),
        bigfred_data_dir: None,
    };
    let any = DataDir::resolve(&bytes, EnvPolicy::DataDir, PathRule::AcceptAny);
    assert_eq!(any.as_path(), &FsPath::new(DEFAULT_ROOT));
    let absolute = DataDir::resolve(&bytes, EnvPolicy::DataDir, PathRule::AbsoluteOnly);
    assert_eq!(absolute.as_path(), &FsPath::from_bytes(b"/a\xff"));
    let empty = DataDir::resolve(&env(Some(""), None), EnvPolicy::DataDir, PathRule::AcceptAny);
    assert_eq!(empty.as_path(), &FsPath::new(""));
}

#[test]
fn unusable_variable_falls_through_to_the_next() {
    let env = env(Some("/second"), Some("first"));
    let d = DataDir::resolve(&env, EnvPolicy::BigfredThenDataDir, PathRule::AbsoluteOnly);
    assert_eq!(d.as_path(), &FsPath::new("/second"));
}

#[test]
fn identity_helpers() {
    let d = DataDir::from_path(FsPath::new("/data"));
    assert_eq!(
        d.etc_file("micronet", "json"),
        FsPath::new("/data/etc/micronet.json")
    );
    assert_eq!(d.etc_dir("microwaf"), FsPath::new("/data/etc/microwaf"));
    assert_eq!(
        d.run_socket("micronet"),
        FsPath::new("/data/run/micronet.sock")
    );
    assert_eq!(
        d.run_nested_socket("microwaf"),
        FsPath::new("/data/run/microwaf/microwaf.sock")
    );
}

#[test]
fn set_root_absolute_only() {
    let mut env = env(None, None);
    set_root(&mut env, &FsPath::new("relative"));
    assert_eq!(root(&env), FsPath::new(DEFAULT_ROOT));
    let dir = FsPath::new("/tmp/bigfred-shared-daemon-set-1");
    set_root(&mut env, &dir);
    assert_eq!(root(&env), dir);
}

#[test]
fn paths_lie_under_the_root() {
    let d = DataDir::from_path(FsPath::new("/srv/x"));
    for p in [
        d.etc_file("a", "json"),
        d.etc_dir("a/b"),
        d.run_socket(""),
        d.run_nested_socket("../up"),
    ] {
        assert!(p.as_bytes().starts_with(b"/srv/x/"));
    }
}

#[test]
fn absolute_parts_stay_under_the_root() {
    let d = DataDir::from_path(FsPath::new("/data"));
    let join = |parts: &[&str]| {
        let parts: Vec<&[u8]> = parts.iter().map(|p| p.as_bytes()).collect();
        d.join(&parts)
    };
    assert_eq!(join(&[]), FsPath::new("/data"));
    assert_eq!(join(&["/etc"]), FsPath::new("/data/etc"));
    assert_eq!(join(&["a", "//b/c", "d"]), FsPath::new("/data/a/b/c/d"));
    assert_eq!(join(&["/"]), FsPath::new("/data/"));
    assert_eq!(d.etc_dir("/abs"), FsPath::new("/data/etc/abs"));
    assert_eq!(d.etc_file("/abs", "json"), FsPath::new("/data/etc/abs.json"));
    assert_eq!(d.run_socket("//abs"), FsPath::new("/data/run/abs.sock"));
    assert_eq!(
        d.run_nested_socket("/abs"),
        FsPath::new("/data/run/abs/abs.sock")
    );
    assert_eq!(
        path(&env(Some("/x"), None), &[b"/etc".as_slice()]),
        FsPath::new("/x/etc")
    );
}

#[test]
fn variable_names() {
    assert_eq!(ENV_DATA_DIR, "DATA_DIR");
    assert_eq!(ENV_BIGFRED_DATA_DIR, "BIGFRED_DATA_DIR");
    assert_eq!(DEFAULT_ROOT, "/data");
}

use bigfred_commons::config::is_junk_name;
use bigfred_commons::config::is_relevant_path;
use bigfred_commons::config::watch::attach_plan;
use bigfred_commons::config::watch::watch_dir_for;
use bigfred_commons::config::watch::ChangeKind;
use bigfred_commons::config::watch::WatchLoop;
use bigfred_commons::config::watch::IDLE_WAIT;
use bigfred_commons::config::PathFilter;
use bigfred_commons::config::WatchSpec;
use bigfred_commons::config::DEFAULT_DEBOUNCE;
use bigfred_commons::fspath::FsPath;

const MS: u128 = 1_000_000;

fn p(text: &str) -> FsPath {
    FsPath::new(text)
}

fn dropins() -> PathFilter {
    PathFilter::Any {
        extensions: vec!["json".into()],
        extra_names: vec!["microinit.json".into(), "microinit.d".into()],
        ignore_suffixes: Vec::new(),
    }
}

#[test]
fn relevant_filters_basename() {
    let f = PathFilter::Basename("micronet.json".into());
    assert!(is_relevant_path(&p("/data/etc/micronet.json"), &f));
    assert!(!is_relevant_path(&p("/data/etc/.micronet.json"), &f));
    assert!(!is_relevant_path(&p("/data/etc/micronet.json~"), &f));
    assert!(!is_relevant_path(&p("/data/etc/other.json"), &f));
    assert!(!is_relevant_path(&p("/data/etc/micronet.json.tmp"), &f));
    assert!(!is_relevant_path(&p("/data/etc/micronet.json.swp"), &f));
}

#[test]
fn relevant_filters_dropins() {
    let f = PathFilter::Any {
        extensions: vec!["json".into()],
        extra_names: vec!["microinit.d".into()],
        ignore_suffixes: Vec::new(),
    };
    assert!(is_relevant_path(&p("/data/etc/microinit.json"), &f));
    assert!(is_relevant_path(&p("/data/etc/microinit.d"), &f));
    assert!(is_relevant_path(&p("/data/etc/microinit.d/loco.json"), &f));
    assert!(!is_relevant_path(&p("/data/etc/notes.txt"), &f));
    assert!(!is_relevant_path(&p("/data/etc/.hidden.json"), &f));
}

#[test]
fn ignored_suffix_beats_an_extra_name() {
    let f = PathFilter::Any {
        extensions: Vec::new(),
        extra_names: vec!["a.example".into()],
        ignore_suffixes: vec![".example".into()],
    };
    assert!(!is_relevant_path(&p("/d/a.example"), &f));
    assert!(is_relevant_path(&p("/d/a"), &f));
    assert!(!is_relevant_path(&p("/d/.."), &f));
    assert!(!is_relevant_path(&p("/"), &f));
    assert!(!is_relevant_path(&FsPath::from_bytes(b"/d/\xff"), &f));
}

#[test]
fn junk_names() {
    for name in [".x", "x~", "x.swp", "x.tmp", ".", "~"] {
        assert!(is_junk_name(name), "{name}");
    }
    for name in ["", "x", "x.json", "swp", "x.tmp2", "~x"] {
        assert!(!is_junk_name(name), "{name}");
    }
}

#[test]
fn specs_for_files_and_directories() {
    let file = WatchSpec::file(p("/data/etc/micronet.json"));
    assert!(!file.recursive);
    assert_eq!(
        file.filter,
        PathFilter::Basename("micronet.json".to_string())
    );
    let nameless = PathFilter::Basename("config".to_string());
    assert_eq!(WatchSpec::file(p("/")).filter, nameless);
    assert_eq!(
        WatchSpec::file(FsPath::from_bytes(b"/\xff")).filter,
        nameless
    );
    let dir = WatchSpec::dir(p("/data/etc"), true);
    assert!(dir.recursive);
    assert!(is_relevant_path(&p("/anything"), &dir.filter));
}

#[test]
fn directories_to_register() {
    assert_eq!(watch_dir_for(&p("/a/b"), true), p("/a/b"));
    assert_eq!(watch_dir_for(&p("/a/b"), false), p("/a"));
    assert_eq!(watch_dir_for(&p("/"), false), p("."));
    assert_eq!(watch_dir_for(&p("b.json"), false), p("."));
    let plan = attach_plan(&WatchSpec::file(p("/a/b.json")), false);
    assert_eq!(plan.target, p("/a"));
    assert!(plan.create && !plan.recursive);
    let plan = attach_plan(&WatchSpec::dir(p("/a/b"), true), false);
    assert_eq!(plan.target, p("/a/b"));
    assert!(!plan.create && plan.recursive);
}

#[test]
fn dir_watch_fires_on_json_replace() {
    let spec = WatchSpec {
        path: p("/tmp/w"),
        recursive: false,
        filter: PathFilter::Any {
            extensions: vec!["json".into()],
            extra_names: vec![
                "microinit.json".into(),
                "microinit.services.enabled-override.json".into(),
                "microinit.d".into(),
            ],
            ignore_suffixes: Vec::new(),
        },
    };
    let mut watch = WatchLoop::new(vec![spec], 50 * MS);
    let done = vec![true];
    assert!(watch.attach(&done));
    assert!(!watch.attach(&done));
    let tmp = vec![p("/tmp/w/microinit.json.tmp")];
    watch.changed(150 * MS, &done, ChangeKind::Create, &tmp);
    assert_eq!(watch.wait(150 * MS), IDLE_WAIT);
    let renamed = vec![p("/tmp/w/microinit.json.tmp"), p("/tmp/w/microinit.json")];
    watch.changed(151 * MS, &done, ChangeKind::Modify, &renamed);
    assert_eq!(watch.wait(151 * MS), 50 * MS);
    assert_eq!(watch.wait(170 * MS), 31 * MS);
    assert_eq!(watch.wait(300 * MS), 0);
    assert!(!watch.waited(200 * MS, &done));
    assert!(watch.waited(201 * MS, &done), "reload after atomic json replace");
    assert!(!watch.waited(900 * MS, &done));
}

#[test]
fn late_recursive_dir_attaches_and_fires_reload() {
    let specs = vec![
        WatchSpec {
            path: p("/r/etc"),
            recursive: false,
            filter: dropins(),
        },
        WatchSpec {
            path: p("/r/etc/microinit.d/services"),
            recursive: true,
            filter: dropins(),
        },
    ];
    let mut watch = WatchLoop::new(specs, 50 * MS);
    assert!(watch.attach(&vec![true, false]));
    assert!(watch.is_attached(0) && !watch.is_attached(1));
    assert!(!watch.waited(1_000 * MS, &vec![true, false]));
    assert!(!watch.waited(2_000 * MS, &vec![true, true]));
    assert!(watch.is_attached(1));
    assert!(
        watch.waited(2_050 * MS, &vec![false, false]),
        "reload after late drop-in create"
    );
    assert!(watch.is_attached(0) && watch.is_attached(1));
}

#[test]
fn failed_recursive_spec_does_not_kill_file_watch() {
    let specs = vec![
        WatchSpec::file(p("/d/cfg.json")),
        WatchSpec {
            path: p("/d/blocked"),
            recursive: true,
            filter: PathFilter::Any {
                extensions: vec!["json".into()],
                extra_names: Vec::new(),
                ignore_suffixes: Vec::new(),
            },
        },
    ];
    let mut watch = WatchLoop::new(specs, 50 * MS);
    let tried = vec![true, false];
    watch.attach(&tried);
    watch.changed(0, &tried, ChangeKind::Modify, &vec![p("/d/cfg.json")]);
    assert!(
        watch.waited(50 * MS, &tried),
        "file watch still live after sibling spec failed"
    );
    assert_eq!(watch.specs().len(), 2);
}

#[test]
fn bursts_fire_once() {
    let mut watch = WatchLoop::new(vec![WatchSpec::file(p("/d/c"))], DEFAULT_DEBOUNCE);
    let done = vec![true];
    watch.attach(&done);
    let paths = vec![p("/d/c")];
    let mut fired = 0;
    for t in 0..100u128 {
        watch.changed(t * 10 * MS, &done, ChangeKind::Any, &paths);
        if watch.waited(t * 10 * MS + 5 * MS, &done) {
            fired += 1;
        }
    }
    assert_eq!(fired, 0);
    assert!(watch.waited(990 * MS + DEFAULT_DEBOUNCE, &done));
    assert!(!watch.waited(5_000 * MS, &done));
}

#[test]
fn reads_do_not_trigger() {
    let mut watch = WatchLoop::new(vec![WatchSpec::file(p("/d/c"))], 0);
    let done = vec![true];
    watch.attach(&done);
    for kind in [ChangeKind::Access, ChangeKind::Other] {
        watch.changed(1, &done, kind, &vec![p("/d/c")]);
        assert!(!watch.waited(1, &done));
    }
    watch.changed(1, &done, ChangeKind::Remove, &vec![p("/d/c")]);
    assert!(watch.waited(1, &done));
}

#[test]
fn clock_that_goes_back_does_not_fire_early() {
    let mut watch = WatchLoop::new(vec![WatchSpec::file(p("/d/c"))], 10);
    let done = vec![true];
    watch.attach(&done);
    watch.changed(100, &done, ChangeKind::Modify, &vec![p("/d/c")]);
    assert_eq!(watch.wait(50), 10);
    assert!(!watch.waited(50, &done));
}

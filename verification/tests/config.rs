use bigfred_commons::config::json::file_text;
use bigfred_commons::config::json::CreateOutcome;
use bigfred_commons::config::json::LoadStep;
use bigfred_commons::config::try_reload;
use bigfred_commons::config::ConfigError;
use bigfred_commons::config::JsonFile;
use bigfred_commons::config::Live;
use bigfred_commons::config::Load;
use bigfred_commons::fspath::FsPath;
use bigfred_commons::io::IoFailure;
use bigfred_commons::io::IoKind;
use serde_json::Value;

struct Boom;

impl Load for Boom {
    type Value = u32;
    fn load(&self) -> Result<u32, ConfigError> {
        Err(ConfigError::Other("nope".into()))
    }
}

struct Once(std::sync::atomic::AtomicBool);

impl Load for Once {
    type Value = u32;
    fn load(&self) -> Result<u32, ConfigError> {
        if self.0.swap(true, std::sync::atomic::Ordering::SeqCst) {
            return Err(ConfigError::Other("second".into()));
        }
        Ok(7)
    }
}

fn failure(kind: IoKind) -> IoFailure {
    IoFailure {
        kind,
        text: "gone".to_string(),
    }
}

fn file() -> JsonFile<Value> {
    JsonFile::new(FsPath::new("/data/etc/sample.json"))
}

#[test]
fn failed_reload_keeps_previous() {
    let mut live = Live::new(1u32);
    assert!(try_reload(&Boom, &mut live).is_err());
    assert_eq!(live.snapshot(), 1);

    let src = Once(std::sync::atomic::AtomicBool::new(false));
    try_reload(&src, &mut live).unwrap();
    assert_eq!(live.snapshot(), 7);
    assert!(try_reload(&src, &mut live).is_err());
    assert_eq!(live.snapshot(), 7);
}

#[test]
fn live_value_is_lent_and_replaced() {
    let mut live = Live::new(vec![1, 2, 3]);
    assert_eq!(live.with(|v| v.len()), 3);
    live.replace(vec![4]);
    assert_eq!(live.with(|v| v[0]), 4);
    let failed = live.apply(Err(ConfigError::Json("bad".to_string())));
    assert_eq!(failed, Err(ConfigError::Json("bad".to_string())));
    assert_eq!(live.snapshot(), vec![4]);
    assert_eq!(live.apply(Ok(vec![5])), Ok(()));
    assert_eq!(live.snapshot(), vec![5]);
}

#[test]
fn load_or_create_writes_pretty_json() {
    let src = file().create_default();
    let step = src.read(Err(failure(IoKind::NotFound)));
    let parent = match step {
        LoadStep::Create { parent } => parent,
        other => panic!("create: {other:?}"),
    };
    assert_eq!(parent, Some(FsPath::new("/data/etc")));
    let mut fields = serde_json::Map::new();
    fields.insert("hostName".to_string(), Value::from(""));
    let value = Value::Object(fields);
    let text = file_text(serde_json::to_string_pretty(&value).unwrap());
    assert!(text.contains("hostName"));
    assert!(text.ends_with('\n'));
    let made = src.created(value.clone(), parent, CreateOutcome::Written);
    assert_eq!(made, Ok(value));
}

#[test]
fn missing_defaults_does_not_write() {
    let src: JsonFile<Value> = JsonFile::new(FsPath::new("/tmp/missing.json")).missing_defaults();
    assert_eq!(
        src.read(Err(failure(IoKind::NotFound))),
        LoadStep::UseDefault
    );
}

#[test]
fn invalid_json_is_error() {
    let src = file();
    let step = src.read(Ok("{".to_string()));
    assert_eq!(step, LoadStep::Parse("{".to_string()));
    let parsed = serde_json::from_str::<Value>("{").map_err(|e| e.to_string());
    assert!(matches!(src.parsed(parsed), Err(ConfigError::Json(_))));
}

#[test]
fn existing_file_roundtrip() {
    let src = file().create_default();
    let text = r#"{"hostName":"hub","count":2}"#;
    assert_eq!(
        src.read(Ok(text.to_string())),
        LoadStep::Parse(text.to_string())
    );
    let parsed = serde_json::from_str::<Value>(text).map_err(|e| e.to_string());
    let value = src.parsed(parsed).unwrap();
    assert_eq!(value["hostName"], "hub");
    assert_eq!(value["count"], 2);
}

#[test]
fn missing_file_is_an_error_by_default() {
    let step = file().read(Err(failure(IoKind::NotFound)));
    assert_eq!(
        step,
        LoadStep::Fail(ConfigError::Io {
            path: "/data/etc/sample.json".to_string(),
            source: failure(IoKind::NotFound),
        })
    );
}

#[test]
fn unreadable_file_is_an_error_for_every_seed() {
    for src in [file(), file().missing_defaults(), file().create_default()] {
        let step = src.read(Err(failure(IoKind::Other)));
        assert!(matches!(step, LoadStep::Fail(ConfigError::Io { .. })));
        assert_eq!(src.path(), &FsPath::new("/data/etc/sample.json"));
    }
}

#[test]
fn failed_creation_names_what_failed() {
    let src = file().create_default();
    let parent = || Some(FsPath::new("/data/etc"));
    let dir = src.created(
        Value::Null,
        parent(),
        CreateOutcome::DirFailed(failure(IoKind::Other)),
    );
    assert_eq!(
        dir.unwrap_err().message(),
        "I/O error on /data/etc: gone"
    );
    let write = src.created(
        Value::Null,
        parent(),
        CreateOutcome::WriteFailed(failure(IoKind::Other)),
    );
    assert_eq!(
        write.unwrap_err().message(),
        "I/O error on /data/etc/sample.json: gone"
    );
    let encode = src.created(
        Value::Null,
        parent(),
        CreateOutcome::EncodeFailed("bad".to_string()),
    );
    assert_eq!(encode.unwrap_err().message(), "JSON error: bad");
}

#[test]
fn existing_file_is_never_created() {
    for src in [file(), file().missing_defaults(), file().create_default()] {
        let step = src.read(Ok("{".to_string()));
        assert_eq!(step, LoadStep::Parse("{".to_string()));
        let failed = src.parsed(Err("EOF".to_string()));
        assert_eq!(failed, Err(ConfigError::Json("EOF".to_string())));
    }
}

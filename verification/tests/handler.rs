use caverr::path::{copy_path, Component, RelativePathError};
use caverr::worker::rsa::handler::{is_newer, HandlerError, RsaHandler, Transformed};
use caverr::worker::rsa::material::{PrivateKey, PublicKey};

type Path = Vec<Component<String>>;

fn names(names: &[&str]) -> Path {
    let mut path: Path = vec![Component::RootDir];
    for name in names {
        path.push(Component::Normal(name.to_string()));
    }
    path
}

fn same(a: &Path, b: &Path) -> bool {
    a.len() == b.len()
        && a.iter().zip(b.iter()).all(|pair| match pair {
            (Component::Prefix(x), Component::Prefix(y)) => x == y,
            (Component::RootDir, Component::RootDir) => true,
            (Component::CurDir, Component::CurDir) => true,
            (Component::ParentDir, Component::ParentDir) => true,
            (Component::Normal(x), Component::Normal(y)) => x == y,
            _ => false,
        })
}

fn handler() -> RsaHandler {
    let key = PublicKey { n: vec![0x0c, 0xa1], e: vec![17] };
    RsaHandler::encryptor(key, names(&["out"]))
}

fn decrypting_handler() -> RsaHandler {
    let key = PrivateKey::new(vec![0x0c, 0xa1], vec![17], vec![0x01, 0x9d], vec![vec![61], vec![53]])
        .expect("a private key");
    RsaHandler::decryptor(key, names(&["plain"]))
}

#[test]
fn handler_should_check_for_newer() {
    let first_time: Result<i128, String> = Ok(1_000_000_000);
    let second_time: Result<i128, String> = Ok(3_000_000_000);
    let missing: Result<i128, String> = Err("does/not/exist".to_string());

    let check = is_newer(true, first_time.clone(), second_time.clone());
    assert!(check.is_ok());
    assert!(!check.unwrap());

    let check = is_newer(true, second_time.clone(), first_time.clone());
    assert!(check.is_ok());
    assert!(check.unwrap());

    let check = is_newer(true, missing.clone(), first_time.clone());
    assert!(check.is_err());

    let check = is_newer(false, first_time.clone(), missing.clone());
    assert!(check.is_ok());
    assert!(check.unwrap());
}

#[test]
fn equal_times_are_not_newer() {
    let time: Result<i128, String> = Ok(5);
    assert_eq!(is_newer(true, time.clone(), time.clone()), Ok(false));
    assert_eq!(is_newer(true, Ok::<i128, String>(-2), Ok(-3)), Ok(true));
}

#[test]
fn unreadable_time_of_the_source_is_said_first() {
    let check = is_newer(true, Err::<i128, String>("source".to_string()), Err("target".to_string()));
    assert_eq!(check, Err("source".to_string()));
    let check = is_newer(true, Ok::<i128, String>(1), Err("target".to_string()));
    assert_eq!(check, Err("target".to_string()));
}

#[test]
fn block_size_follows_the_key() {
    assert_eq!(handler().message_len(), 256);
    assert_eq!(decrypting_handler().message_len(), 512);
}

fn source() -> Path {
    names(&["src", "sub", "b.txt"])
}

fn resolved() -> Result<Path, String> {
    Ok(names(&["src", "sub", "b.txt"]))
}

#[test]
fn fresh_target_is_skipped_and_nothing_runs() {
    let handler = handler();
    let mut made: Option<Path> = None;
    let mut ran = false;
    let outcome = handler.transform(
        source(),
        resolved(),
        |target: Path| -> Result<(), String> {
            made = Some(target);
            Ok(())
        },
        |_target: Path| -> Result<bool, String> { Ok(false) },
        |_target: Path, _len: usize| -> Result<u64, String> {
            ran = true;
            Ok(1)
        },
    );
    assert!(matches!(outcome, Ok(Transformed::Skipped)));
    assert!(!ran);
    assert!(same(&made.expect("the directory is made"), &names(&["out", "src", "sub", "b.txt"])));
}

#[test]
fn newer_source_is_processed() {
    let handler = handler();
    let target = names(&["out", "src", "sub", "b.txt"]);
    let outcome = handler.transform(
        source(),
        resolved(),
        |_target: Path| -> Result<(), String> { Ok(()) },
        |looked_at: Path| -> Result<bool, String> {
            assert!(same(&looked_at, &names(&["out", "src", "sub", "b.txt"])));
            Ok(true)
        },
        |written: Path, len: usize| -> Result<u64, String> {
            assert!(same(&written, &names(&["out", "src", "sub", "b.txt"])));
            assert_eq!(len, 256);
            Ok(16384)
        },
    );
    match outcome {
        Ok(Transformed::Processed(bytes, path)) => {
            assert_eq!(bytes, 16384);
            assert!(same(&path, &target));
        }
        _ => panic!("the file was not processed"),
    }
}

#[test]
fn unknown_freshness_means_work() {
    let handler = decrypting_handler();
    let outcome = handler.transform(
        source(),
        resolved(),
        |_target: Path| -> Result<(), String> { Ok(()) },
        |_target: Path| -> Result<bool, String> { Err("no time".to_string()) },
        |_target: Path, len: usize| -> Result<u64, String> {
            assert_eq!(len, 512);
            Ok(512)
        },
    );
    assert!(matches!(outcome, Ok(Transformed::Processed(512, _))));
}

#[test]
fn failure_of_the_transform_is_the_failure_of_the_file() {
    let handler = handler();
    let outcome = handler.transform(
        source(),
        resolved(),
        |_target: Path| -> Result<(), String> { Ok(()) },
        |_target: Path| -> Result<bool, String> { Ok(true) },
        |_target: Path, _len: usize| -> Result<u64, String> { Err("block 2".to_string()) },
    );
    match outcome {
        Err(HandlerError::File(text)) => assert_eq!(text, "block 2"),
        _ => panic!("the failure is lost"),
    }
}

#[test]
fn source_that_cannot_be_resolved_ends_before_any_work() {
    let handler = handler();
    let called = std::cell::Cell::new(0);
    let outcome = handler.transform(
        names(&["does", "not", "exist"]),
        Err::<Path, String>("not found".to_string()),
        |_target: Path| -> Result<(), String> {
            called.set(called.get() + 1);
            Ok(())
        },
        |_target: Path| -> Result<bool, String> {
            called.set(called.get() + 1);
            Ok(true)
        },
        |_target: Path, _len: usize| -> Result<u64, String> {
            called.set(called.get() + 1);
            Ok(1)
        },
    );
    match outcome {
        Err(HandlerError::Path(RelativePathError::IOError(text))) => assert_eq!(text, "not found"),
        _ => panic!("the failure of the path is lost"),
    }
    assert_eq!(called.get(), 0);
}

#[test]
fn source_without_a_name_ends_before_any_work() {
    let handler = handler();
    let called = std::cell::Cell::new(0);
    let outcome = handler.transform(
        vec![Component::RootDir],
        Ok::<Path, String>(names(&["src"])),
        |_target: Path| -> Result<(), String> {
            called.set(called.get() + 1);
            Ok(())
        },
        |_target: Path| -> Result<bool, String> {
            called.set(called.get() + 1);
            Ok(true)
        },
        |_target: Path, _len: usize| -> Result<u64, String> {
            called.set(called.get() + 1);
            Ok(1)
        },
    );
    match outcome {
        Err(HandlerError::Path(RelativePathError::InvalidSourcePath(text))) => {
            assert_eq!(text, "missing file name in path")
        }
        _ => panic!("the failure of the path is lost"),
    }
    assert_eq!(called.get(), 0);
}

#[test]
fn directory_that_cannot_be_made_ends_the_file() {
    let handler = handler();
    let called = std::cell::Cell::new(0);
    let outcome = handler.transform(
        source(),
        resolved(),
        |_target: Path| -> Result<(), String> { Err("read-only".to_string()) },
        |_target: Path| -> Result<bool, String> {
            called.set(called.get() + 1);
            Ok(true)
        },
        |_target: Path, _len: usize| -> Result<u64, String> {
            called.set(called.get() + 1);
            Ok(1)
        },
    );
    match outcome {
        Err(HandlerError::Path(RelativePathError::IOError(text))) => assert_eq!(text, "read-only"),
        _ => panic!("the failure of the directory is lost"),
    }
    assert_eq!(called.get(), 0);
}

#[test]
fn target_path_is_below_the_directory_of_the_job() {
    let handler = handler();
    let target = handler
        .target_path(names(&["src", "sub", "b.txt"]), Ok::<Path, String>(names(&["src", "sub", "b.txt"])))
        .unwrap();
    assert!(same(&target, &names(&["out", "src", "sub", "b.txt"])));
    let again = handler
        .target_path(names(&["src", "sub", "b.txt"]), Ok::<Path, String>(names(&["src", "sub", "b.txt"])))
        .unwrap();
    assert!(same(&target, &again));
    let refused = handler.target_path(vec![Component::RootDir], Ok::<Path, String>(names(&["src"])));
    assert!(matches!(refused, Err(RelativePathError::InvalidSourcePath(_))));
}

#[test]
fn copy_of_a_path_is_the_path() {
    let path: Path = vec![
        Component::Prefix("C:".to_string()),
        Component::RootDir,
        Component::CurDir,
        Component::ParentDir,
        Component::Normal("a.txt".to_string()),
    ];
    assert!(same(&copy_path(&path), &path));
    assert!(copy_path(&Vec::new()).is_empty());
}

use caverr::path::{build_relative_path, Component, RelativePathError};

type Path = Vec<Component<String>>;

/// The components of a POSIX path, as `std::path::Path::components` gives
/// them.
fn path(text: &str) -> Path {
    std::path::Path::new(text)
        .components()
        .map(|component| match component {
            std::path::Component::Prefix(prefix) => {
                Component::Prefix(prefix.as_os_str().to_str().expect("a name").to_string())
            }
            std::path::Component::RootDir => Component::RootDir,
            std::path::Component::CurDir => Component::CurDir,
            std::path::Component::ParentDir => Component::ParentDir,
            std::path::Component::Normal(name) => {
                Component::Normal(name.to_str().expect("a name").to_string())
            }
        })
        .collect()
}

fn text(path: &Path) -> String {
    let mut buffer = std::path::PathBuf::new();
    for component in path {
        match component {
            Component::Prefix(name) => buffer.push(name),
            Component::RootDir => buffer.push("/"),
            Component::CurDir => buffer.push("."),
            Component::ParentDir => buffer.push(".."),
            Component::Normal(name) => buffer.push(name),
        }
    }
    buffer.to_str().expect("a path").to_string()
}

fn target_of(source: &str, canonical: &str, target_dir: &str) -> Result<String, RelativePathError<String>> {
    build_relative_path(path(source), Ok(path(canonical)), path(target_dir)).map(|p| text(&p))
}

#[test]
fn tree_is_mirrored_below_the_target() {
    assert_eq!(target_of("/src/a.txt", "/src/a.txt", "/out").unwrap(), "/out/src/a.txt");
    assert_eq!(
        target_of("/src/sub/b.txt", "/src/sub/b.txt", "/out").unwrap(),
        "/out/src/sub/b.txt"
    );
}

#[test]
fn resolved_path_decides_the_place_and_the_source_the_name() {
    assert_eq!(
        target_of("link/../src/a.txt", "/data/real/src/a.txt", "/out").unwrap(),
        "/out/data/real/src/a.txt"
    );
    assert_eq!(target_of("alias.txt", "/data/real.txt", "/out").unwrap(), "/out/data/alias.txt");
}

#[test]
fn relative_target_directory_stays_relative() {
    assert_eq!(target_of("a.txt", "/home/me/a.txt", "backup/today").unwrap(), "backup/today/home/me/a.txt");
}

#[test]
fn file_in_the_root_goes_right_below_the_target() {
    assert_eq!(target_of("/a.txt", "/a.txt", "/out").unwrap(), "/out/a.txt");
}

#[test]
fn same_inputs_give_the_same_target() {
    let first = target_of("/src/sub/b.txt", "/src/sub/b.txt", "/out").unwrap();
    let second = target_of("/src/sub/b.txt", "/src/sub/b.txt", "/out").unwrap();
    assert_eq!(first, second);
}

#[test]
fn only_one_leading_component_is_dropped() {
    let target = build_relative_path(path("/src/a.txt"), Ok::<Path, String>(path("/src/a.txt")), path("/out"))
        .unwrap();
    assert_eq!(target.len(), 4);
    assert!(matches!(target[0], Component::RootDir));
    assert!(matches!(&target[1], Component::Normal(name) if name == "out"));
    assert!(matches!(&target[2], Component::Normal(name) if name == "src"));
    assert!(matches!(&target[3], Component::Normal(name) if name == "a.txt"));
}

#[test]
fn source_without_a_name_is_refused() {
    for source in ["/", "..", "/src/..", "."] {
        match build_relative_path(path(source), Ok::<Path, String>(path("/src")), path("/out")) {
            Err(RelativePathError::InvalidSourcePath(text)) => {
                assert_eq!(text, "missing file name in path")
            }
            _ => panic!("{} was accepted", source),
        }
    }
    match build_relative_path(Vec::new(), Ok::<Path, String>(path("/src")), path("/out")) {
        Err(RelativePathError::InvalidSourcePath(text)) => assert_eq!(text, "missing file name in path"),
        _ => panic!("the empty path was accepted"),
    }
}

#[test]
fn missing_name_is_said_before_the_failure_to_resolve() {
    let outcome = build_relative_path(path("/"), Err::<Path, String>("gone".to_string()), path("/out"));
    assert!(matches!(outcome, Err(RelativePathError::InvalidSourcePath(_))));
}

#[test]
fn failure_to_resolve_is_an_io_error() {
    let outcome = build_relative_path(path("/src/a.txt"), Err::<Path, String>("gone".to_string()), path("/out"));
    match outcome {
        Err(RelativePathError::IOError(text)) => assert_eq!(text, "gone"),
        _ => panic!("the failure is lost"),
    }
}

#[test]
fn resolved_path_without_parent_is_refused() {
    match build_relative_path(path("link"), Ok::<Path, String>(path("/")), path("/out")) {
        Err(RelativePathError::InvalidSourcePath(text)) => assert_eq!(text, "no parent in path"),
        _ => panic!("the root was accepted"),
    }
    match build_relative_path(path("link"), Ok::<Path, String>(Vec::new()), path("/out")) {
        Err(RelativePathError::InvalidSourcePath(text)) => assert_eq!(text, "no parent in path"),
        _ => panic!("the empty path was accepted"),
    }
}

#[test]
fn resolved_path_with_empty_parent_is_refused() {
    match build_relative_path(path("a.txt"), Ok::<Path, String>(path("a.txt")), path("/out")) {
        Err(RelativePathError::InvalidSourcePath(text)) => {
            assert_eq!(text, "unable to remove root component from path")
        }
        _ => panic!("a path without a root was accepted"),
    }
}

#[test]
fn prefix_is_dropped_and_the_root_takes_the_place_of_the_target() {
    let canonical: Path = vec![
        Component::Prefix("C:".to_string()),
        Component::RootDir,
        Component::Normal("data".to_string()),
        Component::Normal("a.txt".to_string()),
    ];
    let target_dir: Path = vec![
        Component::Prefix("D:".to_string()),
        Component::RootDir,
        Component::Normal("out".to_string()),
    ];
    let target = build_relative_path(path("a.txt"), Ok::<Path, String>(canonical), target_dir).unwrap();
    assert_eq!(target.len(), 4);
    assert!(matches!(&target[0], Component::Prefix(name) if name == "D:"));
    assert!(matches!(target[1], Component::RootDir));
    assert!(matches!(&target[2], Component::Normal(name) if name == "data"));
    assert!(matches!(&target[3], Component::Normal(name) if name == "a.txt"));
}

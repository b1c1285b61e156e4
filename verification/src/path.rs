//! Where the output of a source file goes: below the target directory, at
//! the place that the file has below the root of its file system.
//!
//! A path is its components, as `std::path::Path::components` gives them.
//! The names in them are carried through as they are.

use vstd::prelude::*;

verus! {

/// One component of a path.
#[derive(Debug, PartialEq, Eq)]
pub enum Component<S> {
    /// A drive or share, where the platform has them.
    Prefix(S),
    /// The root directory.
    RootDir,
    /// `.`
    CurDir,
    /// `..`
    ParentDir,
    /// The name of a file or directory.
    Normal(S),
}

/// Why no target path could be made.
#[derive(Debug)]
pub enum RelativePathError<E> {
    /// The file system refused to resolve the source path.
    IOError(E),
    /// The source path names no file at a place that can be mirrored.
    InvalidSourcePath(String),
}

/// What is wrong with a source path.
pub enum InvalidSource {
    /// The path does not end in a name.
    MissingFileName,
    /// The resolved path has no parent.
    NoParent,
    /// The parent of the resolved path has no first component to take away.
    NoRoot,
}

/// Why no target path can be made, as contracts see it.
pub enum PathFailure<E> {
    Resolve(E),
    Invalid(InvalidSource),
}

/// The text that `RelativePathError::InvalidSourcePath` carries.
pub open spec fn invalid_source_text(reason: InvalidSource) -> Seq<char> {
    match reason {
        InvalidSource::MissingFileName => "missing file name in path"@,
        InvalidSource::NoParent => "no parent in path"@,
        InvalidSource::NoRoot => "unable to remove root component from path"@,
    }
}

/// The last component of `path`, where it is a name.
pub open spec fn file_name<S>(path: Seq<Component<S>>) -> Option<S> {
    if path.len() > 0 && path.last() is Normal {
        Some(path.last()->Normal_0)
    } else {
        None
    }
}

/// `path` without its last component; none where `path` is empty or ends in
/// a root or a prefix.
pub open spec fn parent<S>(path: Seq<Component<S>>) -> Option<Seq<Component<S>>> {
    if path.len() > 0 && !(path.last() is RootDir) && !(path.last() is Prefix) {
        Some(path.drop_last())
    } else {
        None
    }
}

/// `rest` below `base`, as `std::path::Path::join` has it: a `rest` that
/// begins with a prefix stands alone, one that begins at the root keeps only
/// the prefix of `base`, and any other follows `base`.
pub open spec fn join<S>(base: Seq<Component<S>>, rest: Seq<Component<S>>) -> Seq<Component<S>> {
    if rest.len() > 0 && rest[0] is Prefix {
        rest
    } else if rest.len() > 0 && rest[0] is RootDir {
        if base.len() > 0 && base[0] is Prefix {
            base.take(1) + rest
        } else {
            rest
        }
    } else {
        base + rest
    }
}

/// The target path of `source`: below `target_dir`, the parent of the
/// resolved path without its first component, and the name of `source`.
///
/// `resolved` is what resolving `source` in the file system gave.
pub open spec fn relative_target<S, E>(
    source: Seq<Component<S>>,
    resolved: Result<Seq<Component<S>>, E>,
    target_dir: Seq<Component<S>>,
) -> Result<Seq<Component<S>>, PathFailure<E>> {
    match file_name(source) {
        None => Err(PathFailure::Invalid(InvalidSource::MissingFileName)),
        Some(name) => match resolved {
            Err(error) => Err(PathFailure::Resolve(error)),
            Ok(canonical) => match parent(canonical) {
                None => Err(PathFailure::Invalid(InvalidSource::NoParent)),
                Some(directory) => if directory.len() == 0 {
                    Err(PathFailure::Invalid(InvalidSource::NoRoot))
                } else {
                    Ok(join(target_dir, directory.skip(1)).push(Component::Normal(name)))
                },
            },
        },
    }
}

/// What `build_relative_path` returned, as contracts see it.
pub open spec fn target_view<S, E>(
    outcome: Result<Vec<Component<S>>, RelativePathError<E>>,
    expected: Result<Seq<Component<S>>, PathFailure<E>>,
) -> bool {
    match expected {
        Ok(path) => outcome matches Ok(target) && target@ == path,
        Err(PathFailure::Resolve(error)) => outcome matches Err(RelativePathError::IOError(e)) && e
            == error,
        Err(PathFailure::Invalid(reason)) => outcome matches Err(
            RelativePathError::InvalidSourcePath(text),
        ) && text@ == invalid_source_text(reason),
    }
}

/// What resolving a path gave, as contracts see it.
pub open spec fn resolved_view<S, E>(resolved: Result<Vec<Component<S>>, E>) -> Result<
    Seq<Component<S>>,
    E,
> {
    match resolved {
        Ok(path) => Ok(path@),
        Err(error) => Err(error),
    }
}

fn take_file_name<S>(source: Vec<Component<S>>) -> (name: Option<S>)
    ensures
        name == file_name(source@),
{
    let mut source = source;
    match source.pop() {
        Some(Component::Normal(name)) => Some(name),
        _ => None,
    }
}

fn take_parent<S>(path: Vec<Component<S>>) -> (directory: Option<Vec<Component<S>>>)
    ensures
        match parent(path@) {
            Some(expected) => directory matches Some(d) && d@ == expected,
            None => directory is None,
        },
{
    let mut path = path;
    let ghost given = path@;
    match path.pop() {
        Some(last) => match last {
            Component::RootDir | Component::Prefix(_) => None,
            _ => {
                assert(path@ =~= given.drop_last());
                Some(path)
            },
        },
        None => None,
    }
}

fn begins_with_prefix<S>(path: &Vec<Component<S>>) -> (yes: bool)
    ensures
        yes == (path@.len() > 0 && path@[0] is Prefix),
{
    if path.len() == 0 {
        false
    } else {
        match &path[0] {
            Component::Prefix(_) => true,
            _ => false,
        }
    }
}

fn begins_at_root<S>(path: &Vec<Component<S>>) -> (yes: bool)
    ensures
        yes == (path@.len() > 0 && path@[0] is RootDir),
{
    if path.len() == 0 {
        false
    } else {
        match &path[0] {
            Component::RootDir => true,
            _ => false,
        }
    }
}

fn join_onto<S>(base: Vec<Component<S>>, rest: Vec<Component<S>>) -> (joined: Vec<Component<S>>)
    ensures
        joined@ == join(base@, rest@),
{
    let mut base = base;
    let mut rest = rest;
    if begins_with_prefix(&rest) {
        rest
    } else if begins_at_root(&rest) {
        if begins_with_prefix(&base) {
            base.truncate(1);
            base.append(&mut rest);
            base
        } else {
            rest
        }
    } else {
        base.append(&mut rest);
        base
    }
}

/// Makes the target path of `source` below `target_dir`.
///
/// `resolved` is what the file system made of `source`, with links followed
/// and from the root. The target is `target_dir`, then the directories of the
/// resolved path without the first component, then the name that `source`
/// ends in. The caller creates the parent of the target before it writes.
///
/// Refused are a `source` that does not end in a name, a path that could not
/// be resolved, and a resolved path without a parent or with an empty one.
pub fn build_relative_path<S, E>(
    source: Vec<Component<S>>,
    resolved: Result<Vec<Component<S>>, E>,
    target_dir: Vec<Component<S>>,
) -> (outcome: Result<Vec<Component<S>>, RelativePathError<E>>)
    ensures
        target_view(outcome, relative_target(source@, resolved_view(resolved), target_dir@)),
{
    let name = match take_file_name(source) {
        Some(name) => name,
        None => {
            return Err(
                RelativePathError::InvalidSourcePath("missing file name in path".to_owned()),
            );
        },
    };
    let canonical = match resolved {
        Ok(canonical) => canonical,
        Err(error) => {
            return Err(RelativePathError::IOError(error));
        },
    };
    let mut directory = match take_parent(canonical) {
        Some(directory) => directory,
        None => {
            return Err(RelativePathError::InvalidSourcePath("no parent in path".to_owned()));
        },
    };
    if directory.len() == 0 {
        return Err(
            RelativePathError::InvalidSourcePath(
                "unable to remove root component from path".to_owned(),
            ),
        );
    }
    let ghost whole = directory@;
    let _ = directory.remove(0);
    assert(directory@ =~= whole.skip(1));
    let mut target = join_onto(target_dir, directory);
    target.push(Component::Normal(name));
    Ok(target)
}

/// A copy of `path`.
pub fn copy_path(path: &Vec<Component<String>>) -> (copy: Vec<Component<String>>)
    ensures
        copy@ == path@,
{
    let mut copy: Vec<Component<String>> = Vec::with_capacity(path.len());
    let mut i: usize = 0;
    while i < path.len()
        invariant
            i <= path.len(),
            copy@ == path@.take(i as int),
        decreases path.len() - i,
    {
        let component = match &path[i] {
            Component::Prefix(name) => Component::Prefix(name.clone()),
            Component::RootDir => Component::RootDir,
            Component::CurDir => Component::CurDir,
            Component::ParentDir => Component::ParentDir,
            Component::Normal(name) => Component::Normal(name.clone()),
        };
        copy.push(component);
        assert(copy@ =~= path@.take(i + 1));
        i += 1;
    }
    assert(path@.take(path@.len() as int) =~= path@);
    copy
}

/// Of a file at `/d1/.../dn/name`, resolved, nothing is lost but the root:
/// its target is `target_dir/d1/.../dn/` and the name of the source.
pub proof fn lemma_only_the_root_is_dropped<S, E>(
    source: Seq<Component<S>>,
    directories: Seq<Component<S>>,
    resolved_name: S,
    target_dir: Seq<Component<S>>,
)
    requires
        file_name(source) is Some,
        forall|i: int| 0 <= i < directories.len() ==> (#[trigger] directories[i]) is Normal,
    ensures
        relative_target::<S, E>(
            source,
            Ok(seq![Component::RootDir] + directories + seq![Component::Normal(resolved_name)]),
            target_dir,
        ) == Ok::<Seq<Component<S>>, PathFailure<E>>(
            (target_dir + directories).push(Component::Normal(file_name(source).unwrap())),
        ),
{
    let canonical = seq![Component::RootDir] + directories + seq![
        Component::Normal(resolved_name),
    ];
    assert(canonical.last() == Component::Normal(resolved_name));
    assert(canonical.drop_last() =~= seq![Component::<S>::RootDir] + directories);
    assert(canonical.drop_last().skip(1) =~= directories);
    if directories.len() > 0 {
        assert(directories[0] is Normal);
    }
}

} // verus!

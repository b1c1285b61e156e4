use vstd::prelude::*;
use crate::path::{
    Component, PathFailure, RelativePathError, build_relative_path, copy_path,
    invalid_source_text, relative_target, resolved_view, target_view,
};
use crate::file::blocks::blocks;
use crate::file::chunk::ChunkView;
use crate::file::{decrypted_file, encrypts, file_transform};
use crate::worker::rsa::holder::{RsaHolder, RsaKey, RsaKeyView, message_size};
use crate::worker::rsa::material::{PrivateKey, PublicKey, significant_len};

verus! {

/// Handles the files of one job: the key, and the directory below which the
/// outputs go.
pub struct RsaHandler {
    key: RsaKey,
    target_dir: Vec<Component<String>>,
}

/// Why a file was not handled.
#[derive(Debug)]
pub enum HandlerError<P, E> {
    /// The file has no target path, or the directory of the target could
    /// not be made.
    Path(RelativePathError<P>),
    /// The transform of the file failed.
    File(E),
}

/// What became of a source file.
#[derive(Debug)]
pub enum Transformed {
    /// The target is at least as new as the source. Nothing was done.
    Skipped,
    /// The source was transformed: the bytes read, and the target path.
    Processed(u64, Vec<Component<String>>),
}

/// Whether the source is newer than the target: it is where there is no
/// target, and else where its time of change is the later one. Where a time
/// of change cannot be read, that failure is the answer, the source's first.
pub open spec fn newer<E>(
    target_exists: bool,
    source_time: Result<i128, E>,
    target_time: Result<i128, E>,
) -> Result<bool, E> {
    if !target_exists {
        Ok(true)
    } else {
        match source_time {
            Err(error) => Err(error),
            Ok(source) => match target_time {
                Err(error) => Err(error),
                Ok(target) => Ok(source > target),
            },
        }
    }
}

/// Whether a file is to be transformed: not where its target is known to be
/// as new as the file, and in every other case.
pub open spec fn needs_work<E>(newer: Result<bool, E>) -> bool {
    newer != Ok::<bool, E>(false)
}

/// Compares the times of change of a source and its target, in nanoseconds
/// since the epoch. `target_exists` says whether there is a target at all.
pub fn is_newer<E>(
    target_exists: bool,
    source_time: Result<i128, E>,
    target_time: Result<i128, E>,
) -> (answer: Result<bool, E>)
    ensures
        answer == newer(target_exists, source_time, target_time),
{
    if !target_exists {
        Ok(true)
    } else {
        match source_time {
            Err(error) => Err(error),
            Ok(source) => match target_time {
                Err(error) => Err(error),
                Ok(target) => Ok(source > target),
            },
        }
    }
}

impl RsaHandler {
    /// The key of the job.
    pub closed spec fn key(&self) -> RsaKey {
        self.key
    }

    /// The directory below which the outputs go.
    pub closed spec fn target_dir(&self) -> Seq<Component<String>> {
        self.target_dir@
    }

    /// A handler that encrypts with `public_key` into `target_dir`.
    pub fn encryptor(public_key: PublicKey, target_dir: Vec<Component<String>>) -> (handler: Self)
        ensures
            handler.key() == RsaKey::PublicKey(public_key),
            handler.target_dir() == target_dir@,
    {
        Self { key: RsaKey::PublicKey(public_key), target_dir }
    }

    /// A handler that decrypts with `private_key` into `target_dir`.
    pub fn decryptor(private_key: PrivateKey, target_dir: Vec<Component<String>>) -> (handler: Self)
        ensures
            handler.key() == RsaKey::PrivateKey(private_key),
            handler.target_dir() == target_dir@,
    {
        Self { key: RsaKey::PrivateKey(private_key), target_dir }
    }

    /// The block primitive under the key of the job.
    pub fn holder(&self) -> (holder: RsaHolder<'_>)
        ensures
            *holder.key() == self.key(),
    {
        RsaHolder::new(&self.key)
    }

    /// How many bytes of a source file go into one block.
    pub fn message_len(&self) -> (len: usize)
        ensures
            len == message_size(self.key()@.direction()),
    {
        self.key.message_len()
    }

    /// Where the output of `source` goes, below the directory of the job.
    /// `resolved` is what the file system made of `source`.
    pub fn target_path<E>(
        &self,
        source: Vec<Component<String>>,
        resolved: Result<Vec<Component<String>>, E>,
    ) -> (outcome: Result<Vec<Component<String>>, RelativePathError<E>>)
        ensures
            target_view(
                outcome,
                relative_target(source@, resolved_view(resolved), self.target_dir()),
            ),
    {
        build_relative_path(source, resolved, copy_path(&self.target_dir))
    }

    /// Handles one file: derives its target path, has the directory of the
    /// target made, and transforms the file unless its target is as new as
    /// the file.
    ///
    /// `resolved` is what the file system made of `source`. The three
    /// functions do what touches the file system, each with the target path:
    /// `prepare` makes the directory that the target stands in, `look` says
    /// whether the source is newer than the target, as `is_newer` has it, and
    /// `run` transforms the file with blocks of the size that it is given.
    ///
    /// A source without a target path ends with the failure of the path, and
    /// none of the three is called. A directory that cannot be made ends with
    /// that failure. A file whose target is known to be as new is `Skipped`.
    /// For any other file `run` is called: the bytes that it read are handed
    /// on with the target path, and so is its failure.
    pub fn transform<P, N, E, D, L, R>(
        &self,
        source: Vec<Component<String>>,
        resolved: Result<Vec<Component<String>>, P>,
        prepare: D,
        look: L,
        run: R,
    ) -> (outcome: Result<Transformed, HandlerError<P, E>>) where
        D: FnOnce(Vec<Component<String>>) -> Result<(), P>,
        L: FnOnce(Vec<Component<String>>) -> Result<bool, N>,
        R: FnOnce(Vec<Component<String>>, usize) -> Result<u64, E>,

        requires
            forall|target: Vec<Component<String>>| call_requires(prepare, (target,)),
            forall|target: Vec<Component<String>>| call_requires(look, (target,)),
            forall|target: Vec<Component<String>>|
                call_requires(run, (target, message_size(self.key()@.direction()))),
        ensures
            handled(
                relative_target(source@, resolved_view(resolved), self.target_dir()),
                message_size(self.key()@.direction()),
                prepare,
                look,
                run,
                outcome,
            ),
    {
        let target = match build_relative_path(source, resolved, copy_path(&self.target_dir)) {
            Ok(target) => target,
            Err(error) => {
                return Err(HandlerError::Path(error));
            },
        };
        let made = prepare(copy_path(&target));
        assert(prepared(prepare, target@, made));
        if let Err(error) = made {
            return Err(HandlerError::Path(RelativePathError::IOError(error)));
        }
        let answer = look(copy_path(&target));
        assert(looked(look, target@, answer));
        let work = match answer {
            Ok(newer) => newer,
            Err(_) => true,
        };
        if !work {
            return Ok(Transformed::Skipped);
        }
        let done = run(copy_path(&target), self.key.message_len());
        assert(ran(run, target@, message_size(self.key()@.direction()), done));
        match done {
            Ok(bytes) => Ok(Transformed::Processed(bytes, target)),
            Err(error) => Err(HandlerError::File(error)),
        }
    }
}

impl RsaHandler {
    /// Handles one file that is held in memory, with a target in memory:
    /// derives the target path, and transforms `bytes` into `target` unless
    /// the target is as new as the file.
    ///
    /// `resolved` is what the file system made of `source`, `made` what
    /// making the directory of the target gave, and `newer` what `is_newer`
    /// says of the two files. A failure of the path or of the directory is
    /// returned, a file whose target is known to be as new is `Skipped`, and
    /// with both `target` is as it was. Any other file is transformed as
    /// `file_transform` has it: where a block is refused, the failure is
    /// returned and `target` is as it was.
    pub fn transform_bytes<P, N>(
        &self,
        source: Vec<Component<String>>,
        resolved: Result<Vec<Component<String>>, P>,
        made: Result<(), P>,
        newer: Result<bool, N>,
        bytes: &[u8],
        target: &mut Vec<u8>,
    ) -> (outcome: Result<Transformed, HandlerError<P, ::rsa::errors::Error>>)
        ensures
            outcome is Ok && outcome->Ok_0 is Processed || final(target)@ == old(target)@,
            match relative_target(source@, resolved_view(resolved), self.target_dir()) {
                Err(PathFailure::Resolve(error)) => outcome == Err::<
                    Transformed,
                    HandlerError<P, ::rsa::errors::Error>,
                >(HandlerError::Path(RelativePathError::IOError(error))),
                Err(PathFailure::Invalid(reason)) => outcome matches Err(
                    HandlerError::Path(RelativePathError::InvalidSourcePath(text)),
                ) && text@ == invalid_source_text(reason),
                Ok(path) => match made {
                    Err(error) => outcome == Err::<
                        Transformed,
                        HandlerError<P, ::rsa::errors::Error>,
                    >(HandlerError::Path(RelativePathError::IOError(error))),
                    Ok(_) => if needs_work(newer) {
                        worked(
                            self.key()@,
                            blocks(bytes@, message_size(self.key()@.direction()) as nat),
                            bytes@.len(),
                            path,
                            final(target)@,
                            outcome,
                        )
                    } else {
                        outcome is Ok && outcome->Ok_0 is Skipped
                    },
                },
            },
    {
        let path = match build_relative_path(source, resolved, copy_path(&self.target_dir)) {
            Ok(path) => path,
            Err(error) => {
                return Err(HandlerError::Path(error));
            },
        };
        if let Err(error) = made {
            return Err(HandlerError::Path(RelativePathError::IOError(error)));
        }
        let work = match newer {
            Ok(newer) => newer,
            Err(_) => true,
        };
        if !work {
            return Ok(Transformed::Skipped);
        }
        match file_transform(bytes, RsaHolder::new(&self.key), target, self.key.message_len()) {
            Ok(read) => Ok(Transformed::Processed(read, path)),
            Err(error) => Err(HandlerError::File(error)),
        }
    }
}

/// What `RsaHandler::transform_bytes` may return, and leave in `target`, for
/// a file that needs work: the file is `Processed`, with its length and the
/// path `path`, or the transform failed. A private key processes the file
/// just where decryption accepts every block of `inputs`, and the target is
/// then the messages of the blocks. A public key processes it just where it
/// accepts every block, and the target holds a ciphertext for each.
pub open spec fn worked<P>(
    key: RsaKeyView,
    inputs: Seq<ChunkView>,
    bytes: nat,
    path: Seq<Component<String>>,
    target: Seq<u8>,
    outcome: Result<Transformed, HandlerError<P, ::rsa::errors::Error>>,
) -> bool {
    &&& match outcome {
        Ok(Transformed::Processed(read, written)) => read == bytes && written@ == path,
        Ok(Transformed::Skipped) => false,
        Err(failure) => failure is File,
    }
    &&& match key {
        RsaKeyView::PrivateKey(private) => match decrypted_file(private, inputs) {
            Some(file) => outcome is Ok && target == file,
            None => outcome is Err,
        },
        RsaKeyView::PublicKey(public) => (outcome is Ok <==> encrypts(public, inputs)) && (outcome is Ok
            ==> target.len() == inputs.len() * significant_len(public.n)),
    }
}

/// `prepare`, called with the path `target`, may return `outcome`.
pub open spec fn prepared<P, D: FnOnce(Vec<Component<String>>) -> Result<(), P>>(
    prepare: D,
    target: Seq<Component<String>>,
    outcome: Result<(), P>,
) -> bool {
    exists|path: Vec<Component<String>>| path@ == target && call_ensures(prepare, (path,), outcome)
}

/// `prepare`, called with the path `target`, may succeed.
pub open spec fn prepared_well<P, D: FnOnce(Vec<Component<String>>) -> Result<(), P>>(
    prepare: D,
    target: Seq<Component<String>>,
) -> bool {
    exists|outcome: Result<(), P>| outcome is Ok && #[trigger] prepared(prepare, target, outcome)
}

/// `look`, called with the path `target`, may return `outcome`.
pub open spec fn looked<N, L: FnOnce(Vec<Component<String>>) -> Result<bool, N>>(
    look: L,
    target: Seq<Component<String>>,
    outcome: Result<bool, N>,
) -> bool {
    exists|path: Vec<Component<String>>| path@ == target && call_ensures(look, (path,), outcome)
}

/// `look`, called with the path `target`, may give an answer after which the
/// file needs work, where `work` is true, or needs none, where it is false.
pub open spec fn looked_for<N, L: FnOnce(Vec<Component<String>>) -> Result<bool, N>>(
    look: L,
    target: Seq<Component<String>>,
    work: bool,
) -> bool {
    exists|outcome: Result<bool, N>|
        needs_work(outcome) == work && #[trigger] looked(look, target, outcome)
}

/// `run`, called with the path `target` and the block size `len`, may return
/// `outcome`.
pub open spec fn ran<E, R: FnOnce(Vec<Component<String>>, usize) -> Result<u64, E>>(
    run: R,
    target: Seq<Component<String>>,
    len: usize,
    outcome: Result<u64, E>,
) -> bool {
    exists|path: Vec<Component<String>>|
        path@ == target && call_ensures(run, (path, len), outcome)
}

/// What `RsaHandler::transform` may return for a file whose target path, or
/// the failure to make one, is `path`.
///
/// Without a target path the failure of the path is returned, whatever the
/// three functions would do. With one, each result says how far the handler
/// came: a failure of `prepare`; `Skipped` after `prepare` and an answer of
/// `look` that asks for no work; and what `run` returned, after `prepare` and
/// an answer that asks for work.
pub open spec fn handled<P, N, E, D, L, R>(
    path: Result<Seq<Component<String>>, PathFailure<P>>,
    len: usize,
    prepare: D,
    look: L,
    run: R,
    outcome: Result<Transformed, HandlerError<P, E>>,
) -> bool where
    D: FnOnce(Vec<Component<String>>) -> Result<(), P>,
    L: FnOnce(Vec<Component<String>>) -> Result<bool, N>,
    R: FnOnce(Vec<Component<String>>, usize) -> Result<u64, E>,
 {
    match path {
        Err(PathFailure::Resolve(error)) => outcome == Err::<Transformed, HandlerError<P, E>>(
            HandlerError::Path(RelativePathError::IOError(error)),
        ),
        Err(PathFailure::Invalid(reason)) => outcome matches Err(
            HandlerError::Path(RelativePathError::InvalidSourcePath(text)),
        ) && text@ == invalid_source_text(reason),
        Ok(target) => match outcome {
            Err(HandlerError::Path(RelativePathError::IOError(error))) => prepared(
                prepare,
                target,
                Err(error),
            ),
            Err(HandlerError::Path(RelativePathError::InvalidSourcePath(_))) => false,
            Ok(Transformed::Skipped) => prepared_well(prepare, target) && looked_for(
                look,
                target,
                false,
            ),
            Ok(Transformed::Processed(bytes, written)) => written@ == target && prepared_well(
                prepare,
                target,
            ) && looked_for(look, target, true) && ran(run, target, len, Ok(bytes)),
            Err(HandlerError::File(error)) => prepared_well(prepare, target) && looked_for(
                look,
                target,
                true,
            ) && ran(run, target, len, Err(error)),
        },
    }
}

/// A file is left alone just where its target is there and is at least as
/// new as the file. Where a time of change cannot be read, the file is
/// transformed.
pub proof fn lemma_skipped_iff_fresh<E>(
    target_exists: bool,
    source_time: Result<i128, E>,
    target_time: Result<i128, E>,
)
    ensures
        !needs_work(newer(target_exists, source_time, target_time)) <==> (target_exists
            && source_time is Ok && target_time is Ok && target_time->Ok_0 >= source_time->Ok_0),
{
}

} // verus!

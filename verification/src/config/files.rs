//! The file operations as the configuration logic makes them: every call
//! goes through [`Recorded`], which keeps (as ghost state) the calls made so
//! far, each with its arguments and the answer it got. Contracts over this
//! record say what each function hands to the file operations and what it
//! does with each answer, whatever the injected implementation answers.
use vstd::prelude::*;
use crate::config::storage::{ConfigFileOps, ConfigIoError, ReplaceFileError};

verus! {

/// One call of a file operation, with its arguments and its answer.
pub enum FileCall {
    CreateDirAll(Seq<char>, Result<(), ConfigIoError>),
    PathExists(Seq<char>, Result<bool, ConfigIoError>),
    PathIsDirectory(Seq<char>, Result<bool, ConfigIoError>),
    Canonicalize(Seq<char>, Result<Option<Seq<char>>, ConfigIoError>),
    ReadBounded(Seq<char>, Result<Seq<u8>, ConfigIoError>),
    ListOwnedBackups(Seq<char>, Result<Seq<Seq<char>>, ConfigIoError>),
    CreateTemp(Seq<char>, Result<(), ConfigIoError>),
    WriteStaging(Seq<char>, Seq<u8>, Result<(), ConfigIoError>),
    FlushStaging(Seq<char>, Result<(), ConfigIoError>),
    Sync(Seq<char>, Result<(), ConfigIoError>),
    Close(Seq<char>, Result<(), ConfigIoError>),
    Replace(Seq<char>, Seq<char>, Seq<char>, Result<(), ReplaceFileError>),
    Install(Seq<char>, Seq<char>, Result<(), ConfigIoError>),
    Restore(Seq<char>, Seq<char>, Result<(), ConfigIoError>),
    Preserve(Seq<char>, Seq<char>, Result<(), ConfigIoError>),
    Remove(Seq<char>, Result<(), ConfigIoError>),
}

/// An answer with its success value left out.
pub open spec fn unit_answer<T>(answer: Result<T, ConfigIoError>) -> Result<(), ConfigIoError> {
    match answer {
        Ok(_) => Ok(()),
        Err(e) => Err(e),
    }
}

/// A resolution answer with its path as a sequence.
pub open spec fn canonical_answer(answer: Result<Option<String>, ConfigIoError>) -> Result<Option<Seq<char>>, ConfigIoError> {
    match answer {
        Ok(Some(p)) => Ok(Some(p@)),
        Ok(None) => Ok(None),
        Err(e) => Err(e),
    }
}

/// A read answer with its bytes as a sequence.
pub open spec fn bytes_answer(answer: Result<Vec<u8>, ConfigIoError>) -> Result<Seq<u8>, ConfigIoError> {
    match answer {
        Ok(b) => Ok(b@),
        Err(e) => Err(e),
    }
}

/// A listing answer with its paths as sequences.
pub open spec fn paths_answer(answer: Result<Vec<String>, ConfigIoError>) -> Result<Seq<Seq<char>>, ConfigIoError> {
    match answer {
        Ok(paths) => Ok(paths@.map_values(|p: String| p@)),
        Err(e) => Err(e),
    }
}

/// The file operations `ops`, with the calls made through them so far.
pub struct Recorded<'a, F: ConfigFileOps> {
    pub ops: &'a F,
    calls: Ghost<Seq<FileCall>>,
}

impl<'a, F: ConfigFileOps> Recorded<'a, F> {
    /// The calls made so far, oldest first.
    pub closed spec fn calls(&self) -> Seq<FileCall> {
        self.calls@
    }

    /// `ops` with no call made yet.
    pub fn new(ops: &'a F) -> (recorded: Self)
        ensures
            recorded.calls() == Seq::<FileCall>::empty(),
    {
        Recorded { ops, calls: Ghost(Seq::empty()) }
    }

    /// `ops` after the calls `calls`.
    pub(crate) fn resume(ops: &'a F, calls: Ghost<Seq<FileCall>>) -> (recorded: Self)
        ensures
            recorded.calls() == calls@,
    {
        Recorded { ops, calls }
    }

    /// The calls made so far, to carry on elsewhere.
    pub(crate) fn record(&self) -> (calls: Ghost<Seq<FileCall>>)
        ensures
            calls@ == self.calls(),
    {
        self.calls
    }

    pub fn create_dir_all(&mut self, path: &str) -> (answer: Result<(), ConfigIoError>)
        ensures
            final(self).calls() == old(self).calls().push(FileCall::CreateDirAll(path@, answer)),
    {
        let answer = self.ops.create_dir_all(path);
        self.calls = Ghost(self.calls@.push(FileCall::CreateDirAll(path@, answer)));
        answer
    }

    pub fn path_exists(&mut self, path: &str) -> (answer: Result<bool, ConfigIoError>)
        ensures
            final(self).calls() == old(self).calls().push(FileCall::PathExists(path@, answer)),
    {
        let answer = self.ops.path_exists(path);
        self.calls = Ghost(self.calls@.push(FileCall::PathExists(path@, answer)));
        answer
    }

    pub fn path_is_directory(&mut self, path: &str) -> (answer: Result<bool, ConfigIoError>)
        ensures
            final(self).calls() == old(self).calls().push(FileCall::PathIsDirectory(path@, answer)),
    {
        let answer = self.ops.path_is_directory(path);
        self.calls = Ghost(self.calls@.push(FileCall::PathIsDirectory(path@, answer)));
        answer
    }

    pub fn canonicalize_existing(&mut self, path: &str) -> (answer: Result<Option<String>, ConfigIoError>)
        ensures
            final(self).calls() == old(self).calls().push(
                FileCall::Canonicalize(path@, canonical_answer(answer)),
            ),
    {
        let answer = self.ops.canonicalize_existing(path);
        self.calls = Ghost(
            self.calls@.push(
                FileCall::Canonicalize(path@, canonical_answer(answer)),
            ),
        );
        answer
    }

    pub fn read_bounded(&mut self, path: &str) -> (answer: Result<Vec<u8>, ConfigIoError>)
        ensures
            final(self).calls() == old(self).calls().push(
                FileCall::ReadBounded(path@, bytes_answer(answer)),
            ),
    {
        let answer = self.ops.read_bounded(path);
        self.calls = Ghost(
            self.calls@.push(
                FileCall::ReadBounded(path@, bytes_answer(answer)),
            ),
        );
        answer
    }

    pub fn list_owned_backups(&mut self, directory: &str) -> (answer: Result<Vec<String>, ConfigIoError>)
        ensures
            final(self).calls() == old(self).calls().push(
                FileCall::ListOwnedBackups(directory@, paths_answer(answer)),
            ),
    {
        let answer = self.ops.list_owned_backups(directory);
        self.calls = Ghost(
            self.calls@.push(
                FileCall::ListOwnedBackups(directory@, paths_answer(answer)),
            ),
        );
        answer
    }

    pub fn create_temp_exclusive(&mut self, path: &str) -> (answer: Result<F::Pending, ConfigIoError>)
        ensures
            final(self).calls() == old(self).calls().push(FileCall::CreateTemp(path@, unit_answer(answer))),
    {
        let answer = self.ops.create_temp_exclusive(path);
        self.calls = Ghost(self.calls@.push(FileCall::CreateTemp(path@, unit_answer(answer))));
        answer
    }

    pub fn write_staging(&mut self, path: &str, pending: &mut F::Pending, bytes: &[u8]) -> (answer: Result<(), ConfigIoError>)
        ensures
            final(self).calls() == old(self).calls().push(FileCall::WriteStaging(path@, bytes@, answer)),
    {
        let answer = self.ops.write_staging(path, pending, bytes);
        self.calls = Ghost(self.calls@.push(FileCall::WriteStaging(path@, bytes@, answer)));
        answer
    }

    pub fn flush_staging(&mut self, path: &str, pending: &mut F::Pending) -> (answer: Result<(), ConfigIoError>)
        ensures
            final(self).calls() == old(self).calls().push(FileCall::FlushStaging(path@, answer)),
    {
        let answer = self.ops.flush_staging(path, pending);
        self.calls = Ghost(self.calls@.push(FileCall::FlushStaging(path@, answer)));
        answer
    }

    pub fn sync(&mut self, path: &str, pending: &mut F::Pending) -> (answer: Result<(), ConfigIoError>)
        ensures
            final(self).calls() == old(self).calls().push(FileCall::Sync(path@, answer)),
    {
        let answer = self.ops.sync(path, pending);
        self.calls = Ghost(self.calls@.push(FileCall::Sync(path@, answer)));
        answer
    }

    pub fn close(&mut self, path: &str, pending: F::Pending) -> (answer: Result<(), ConfigIoError>)
        ensures
            final(self).calls() == old(self).calls().push(FileCall::Close(path@, answer)),
    {
        let answer = self.ops.close(path, pending);
        self.calls = Ghost(self.calls@.push(FileCall::Close(path@, answer)));
        answer
    }

    pub fn replace_with_backup(&mut self, target: &str, staging: &str, backup: &str) -> (answer: Result<(), ReplaceFileError>)
        ensures
            final(self).calls() == old(self).calls().push(FileCall::Replace(target@, staging@, backup@, answer)),
    {
        let answer = self.ops.replace_with_backup(target, staging, backup);
        self.calls = Ghost(self.calls@.push(FileCall::Replace(target@, staging@, backup@, answer)));
        answer
    }

    pub fn install_new_noreplace(&mut self, staging: &str, target: &str) -> (answer: Result<(), ConfigIoError>)
        ensures
            final(self).calls() == old(self).calls().push(FileCall::Install(staging@, target@, answer)),
    {
        let answer = self.ops.install_new_noreplace(staging, target);
        self.calls = Ghost(self.calls@.push(FileCall::Install(staging@, target@, answer)));
        answer
    }

    pub fn restore_backup_noreplace(&mut self, backup: &str, target: &str) -> (answer: Result<(), ConfigIoError>)
        ensures
            final(self).calls() == old(self).calls().push(FileCall::Restore(backup@, target@, answer)),
    {
        let answer = self.ops.restore_backup_noreplace(backup, target);
        self.calls = Ghost(self.calls@.push(FileCall::Restore(backup@, target@, answer)));
        answer
    }

    pub fn preserve_corrupt_noreplace(&mut self, source: &str, destination: &str) -> (answer: Result<(), ConfigIoError>)
        ensures
            final(self).calls() == old(self).calls().push(FileCall::Preserve(source@, destination@, answer)),
    {
        let answer = self.ops.preserve_corrupt_noreplace(source, destination);
        self.calls = Ghost(self.calls@.push(FileCall::Preserve(source@, destination@, answer)));
        answer
    }

    pub fn remove_owned(&mut self, path: &str) -> (answer: Result<(), ConfigIoError>)
        ensures
            final(self).calls() == old(self).calls().push(FileCall::Remove(path@, answer)),
    {
        let answer = self.ops.remove_owned(path);
        self.calls = Ghost(self.calls@.push(FileCall::Remove(path@, answer)));
        answer
    }
}

/// The calls made after the first `start`.
pub open spec fn calls_since(calls: Seq<FileCall>, start: int) -> Seq<FileCall> {
    calls.subrange(start, calls.len() as int)
}

} // verus!

//! Reading the translator from the host.
//!
//! The caller opens, looks and reads; this module says what is done next and judges what was
//! found.
use crate::rosetta::RosettaError;
use vstd::prelude::*;

verus! {

/// A hundred and twenty-eight mebibytes.
pub const MAX_TRANSLATOR_SIZE: u64 = 0x800_0000;

/// The parts of a path between its slashes.
pub open spec fn path_parts(path: Seq<u8>) -> Seq<Seq<u8>>
    decreases path.len(),
{
    if path.len() == 0 {
        seq![Seq::<u8>::empty()]
    } else {
        let rest = path_parts(path.drop_last());
        if path.last() == 0x2f {
            rest.push(Seq::<u8>::empty())
        } else {
            rest.update(rest.len() - 1, rest.last().push(path.last()))
        }
    }
}

/// A part that names nothing: empty, or the directory itself.
pub open spec fn is_filler(part: Seq<u8>) -> bool {
    part.len() == 0 || part == seq![0x2eu8]
}

/// A part that names the directory above.
pub open spec fn is_parent(part: Seq<u8>) -> bool {
    part == seq![0x2eu8, 0x2eu8]
}

/// The parts that name something, in order.
pub open spec fn named_parts(parts: Seq<Seq<u8>>) -> Seq<Seq<u8>>
    decreases parts.len(),
{
    if parts.len() == 0 {
        seq![]
    } else {
        let rest = named_parts(parts.drop_last());
        if is_filler(parts.last()) {
            rest
        } else {
            rest.push(parts.last())
        }
    }
}

/// The views of the components.
pub open spec fn views(parts: Seq<Vec<u8>>) -> Seq<Seq<u8>> {
    Seq::new(parts.len(), |i: int| parts[i]@)
}

/// Splits a path at its slashes.
fn split_path(path: &Vec<u8>) -> (result: Vec<Vec<u8>>)
    ensures
        views(result@) == path_parts(path@),
{
    let mut parts: Vec<Vec<u8>> = Vec::new();
    let mut current: Vec<u8> = Vec::new();
    let mut i: usize = 0;
    assert(views(parts@).push(current@) == path_parts(path@.take(0)));
    while i < path.len()
        invariant
            i <= path.len(),
            views(parts@).push(current@) == path_parts(path@.take(i as int)),
        decreases path.len() - i,
    {
        let ghost before = views(parts@).push(current@);
        let ghost next = path@.take(i + 1);
        assert(next.drop_last() == path@.take(i as int));
        assert(next.last() == path@[i as int]);
        if path[i] == 0x2f {
            parts.push(current);
            current = Vec::new();
            assert(views(parts@) == before);
            assert(views(parts@).push(current@) == path_parts(next));
        } else {
            current.push(path[i]);
            assert(views(parts@).push(current@) == path_parts(next));
        }
        i = i + 1;
    }
    let ghost before = views(parts@).push(current@);
    parts.push(current);
    assert(views(parts@) == before);
    assert(path@.take(path.len() as int) == path@);
    parts
}

/// The parts of a path that name something: the directories to open one after the other.
pub fn named_components(path: &Vec<u8>) -> (components: Vec<Vec<u8>>)
    ensures
        views(components@) == named_parts(path_parts(path@)),
{
    let parts = split_path(path);
    let ghost all = views(parts@);
    let mut components: Vec<Vec<u8>> = Vec::new();
    let mut i: usize = 0;
    while i < parts.len()
        invariant
            i <= parts.len(),
            all == views(parts@),
            views(components@) == named_parts(all.take(i as int)),
        decreases parts.len() - i,
    {
        let part = &parts[i];
        proof {
            let next = all.take(i + 1);
            assert(next.drop_last() == all.take(i as int));
            assert(next.last() == part@);
        }
        let filler: bool = part.len() == 0 || (part.len() == 1 && part[0] == 0x2e);
        assert(filler == is_filler(part@)) by {
            if part.len() == 1 && part@[0] == 0x2e {
                assert(part@ == seq![0x2eu8]);
            }
        }
        if !filler {
            let ghost before = components@;
            let copy: Vec<u8> = copy_bytes(part);
            components.push(copy);
            assert(views(components@) == views(before).push(part@));
        }
        i = i + 1;
    }
    assert(all.take(parts.len() as int) == all);
    components
}

/// Whether a part of a path names the directory above.
fn names_parent(part: &Vec<u8>) -> (result: bool)
    ensures
        result == is_parent(part@),
{
    let result: bool = part.len() == 2 && part[0] == 0x2e && part[1] == 0x2e;
    assert(result == is_parent(part@)) by {
        if result {
            assert(part@ == seq![0x2eu8, 0x2eu8]);
        }
    }
    result
}

fn copy_bytes(bytes: &Vec<u8>) -> (result: Vec<u8>)
    ensures
        result@ == bytes@,
{
    let mut copy: Vec<u8> = Vec::new();
    let mut i: usize = 0;
    while i < bytes.len()
        invariant
            i <= bytes.len(),
            copy@ == bytes@.take(i as int),
        decreases bytes.len() - i,
    {
        copy.push(bytes[i]);
        assert(copy@ == bytes@.take(i + 1));
        i = i + 1;
    }
    assert(copy@ == bytes@);
    copy
}

/// What identifies a file and its contents to the host.
#[derive(Clone, Copy, Debug, PartialEq, Eq, Structural)]
pub struct FileIdentity {
    pub dev: u64,
    pub ino: u64,
    pub mode: u16,
    pub size: i64,
    pub mtime_sec: i64,
    pub mtime_nsec: i64,
    pub ctime_sec: i64,
    pub ctime_nsec: i64,
}

/// Whether a directory that was opened by name is still the one under that name.
pub fn judge_component(opened: FileIdentity, named: FileIdentity) -> (result: Result<
    (),
    RosettaError,
>)
    ensures
        result == if opened == named {
            Ok::<(), RosettaError>(())
        } else {
            Err(RosettaError::RootChanged)
        },
{
    if opened == named {
        Ok(())
    } else {
        Err(RosettaError::RootChanged)
    }
}

/// Whether an open file, and the file now under its name, are both what was expected.
pub fn verify_current(opened: FileIdentity, named: FileIdentity, expected: FileIdentity) -> (result:
    Result<(), RosettaError>)
    ensures
        result == if opened == expected && named == expected {
            Ok::<(), RosettaError>(())
        } else {
            Err(RosettaError::SourceChanged)
        },
{
    if opened != expected || named != expected {
        return Err(RosettaError::SourceChanged);
    }
    Ok(())
}

/// Type bits of a file mode, and those of a regular file.
pub const FILE_TYPE_MASK: u16 = 0xf000;
pub const FILE_TYPE_REGULAR: u16 = 0x8000;

/// The execute bits of a file mode.
pub const EXECUTE_BITS: u16 = 0x49;

/// A bounded executable regular file.
pub open spec fn is_translator(file: FileIdentity) -> bool {
    &&& file.mode & FILE_TYPE_MASK == FILE_TYPE_REGULAR
    &&& file.mode & EXECUTE_BITS != 0
    &&& 0 <= file.size <= MAX_TRANSLATOR_SIZE
}

/// The number of bytes to read from a file that may be the translator.
pub fn judge_translator(file: FileIdentity) -> (result: Result<usize, RosettaError>)
    ensures
        is_translator(file) ==> result == Ok::<usize, RosettaError>(file.size as usize),
        !is_translator(file) ==> result == Err::<usize, _>(RosettaError::UnsuitableTranslator),
{
    if file.mode & FILE_TYPE_MASK != FILE_TYPE_REGULAR || file.mode & EXECUTE_BITS == 0 || file.size
        < 0 || file.size as u64 > MAX_TRANSLATOR_SIZE {
        return Err(RosettaError::UnsuitableTranslator);
    }
    Ok(file.size as usize)
}

/// What a positioned read came to.
#[derive(Clone, Copy, Debug, PartialEq, Eq, Structural)]
pub enum ReadReply {
    /// This many bytes were read.
    Read(usize),
    Interrupted,
    Failed(i32),
}

/// What the host is asked for next.
#[derive(Clone, Copy, Debug, PartialEq, Eq, Structural)]
pub enum SnapshotStep {
    /// Open the root of the host's file system.
    OpenBase,
    /// Open this component of the path below the directory that was opened last, as a directory
    /// and without following a link. Then look at it, and at what now has its name.
    OpenComponent(usize),
    /// Look at the directory that was opened last.
    LookAtDirectory,
    /// Look at that directory again, and at what now has its name.
    CheckDirectory,
    /// Open the translator in that directory without following a link, and look at it.
    OpenTranslator,
    /// Look at the translator again, and at what now has its name.
    CheckTranslator,
    /// Read the bytes of the translator that are missing.
    Read { offset: usize, len: usize },
    /// The translator has been read.
    Finished,
    Failed(RosettaError),
}

/// What the host answered.
#[derive(Clone, Copy, Debug, PartialEq, Eq, Structural)]
pub enum SnapshotReply {
    Opened,
    Found(FileIdentity),
    /// What is open, and what has its name.
    Compared { opened: FileIdentity, named: FileIdentity },
    Read(ReadReply),
    /// The host refused, with this error number.
    Refused(i32),
}

/// How far the taking of a snapshot has come. `directory` and `file` are what the directory and
/// the translator were when they were first looked at.
#[derive(Clone, Copy, Debug, PartialEq, Eq, Structural)]
pub enum SnapshotPhase {
    Base,
    Component(usize),
    Directory,
    DirectoryOpened { directory: FileIdentity },
    Translator { directory: FileIdentity },
    TranslatorOpened { directory: FileIdentity, file: FileIdentity },
    Reading { directory: FileIdentity, file: FileIdentity, offset: usize },
    TranslatorRead { directory: FileIdentity, file: FileIdentity },
    TranslatorChecked { directory: FileIdentity, file: FileIdentity },
    Finished { file: FileIdentity },
    Failed(RosettaError),
}

/// What follows a comparison: `next` if both are what was expected.
pub open spec fn if_current(
    opened: FileIdentity,
    named: FileIdentity,
    expected: FileIdentity,
    next: SnapshotPhase,
) -> SnapshotPhase {
    if opened == expected && named == expected {
        next
    } else {
        SnapshotPhase::Failed(RosettaError::SourceChanged)
    }
}

/// Reading goes on until the whole file is there.
pub open spec fn reading_from(
    directory: FileIdentity,
    file: FileIdentity,
    offset: int,
) -> SnapshotPhase {
    if offset < file.size {
        SnapshotPhase::Reading { directory, file, offset: offset as usize }
    } else {
        SnapshotPhase::TranslatorRead { directory, file }
    }
}

/// The taking of a snapshot of the translator, which may not change meanwhile.
#[derive(Debug)]
pub struct SnapshotRun {
    pub components: Vec<Vec<u8>>,
    pub phase: SnapshotPhase,
}

impl SnapshotRun {
    /// What was first looked at is a translator where there is one, and what was read of it lies
    /// in it.
    pub open spec fn wf(self) -> bool {
        match self.phase {
            SnapshotPhase::Component(index) => index < self.components@.len(),
            SnapshotPhase::TranslatorOpened { file, .. } => is_translator(file),
            SnapshotPhase::Reading { file, offset, .. } => is_translator(file) && offset < file.size,
            SnapshotPhase::TranslatorRead { file, .. } => is_translator(file),
            SnapshotPhase::TranslatorChecked { file, .. } => is_translator(file),
            SnapshotPhase::Finished { file } => is_translator(file),
            _ => true,
        }
    }

    /// Going on with a component of the path. One that leads upwards ends it, and so does a path
    /// without any.
    pub open spec fn at_component(self, index: int) -> SnapshotPhase {
        if index >= self.components@.len() {
            if index == 0 {
                SnapshotPhase::Failed(RosettaError::RootOfFileSystem)
            } else {
                SnapshotPhase::Directory
            }
        } else if is_parent(self.components@[index]@) {
            SnapshotPhase::Failed(RosettaError::InvalidComponent)
        } else {
            SnapshotPhase::Component(index as usize)
        }
    }

    /// What the host is asked for next.
    pub open spec fn step_spec(self) -> SnapshotStep {
        match self.phase {
            SnapshotPhase::Base => SnapshotStep::OpenBase,
            SnapshotPhase::Component(index) => SnapshotStep::OpenComponent(index),
            SnapshotPhase::Directory => SnapshotStep::LookAtDirectory,
            SnapshotPhase::DirectoryOpened { .. } => SnapshotStep::CheckDirectory,
            SnapshotPhase::Translator { .. } => SnapshotStep::OpenTranslator,
            SnapshotPhase::TranslatorOpened { .. } => SnapshotStep::CheckTranslator,
            SnapshotPhase::Reading { file, offset, .. } => SnapshotStep::Read {
                offset,
                len: (file.size - offset) as usize,
            },
            SnapshotPhase::TranslatorRead { .. } => SnapshotStep::CheckTranslator,
            SnapshotPhase::TranslatorChecked { .. } => SnapshotStep::CheckDirectory,
            SnapshotPhase::Finished { .. } => SnapshotStep::Finished,
            SnapshotPhase::Failed(error) => SnapshotStep::Failed(error),
        }
    }

    /// The answer is one to what was asked for.
    pub open spec fn answers(self, reply: SnapshotReply) -> bool {
        match (self.step_spec(), reply) {
            (SnapshotStep::Finished, _) => false,
            (SnapshotStep::Failed(_), _) => false,
            (_, SnapshotReply::Refused(_)) => true,
            (SnapshotStep::OpenBase, SnapshotReply::Opened) => true,
            (SnapshotStep::OpenComponent(_), SnapshotReply::Compared { .. }) => true,
            (SnapshotStep::LookAtDirectory, SnapshotReply::Found(_)) => true,
            (SnapshotStep::CheckDirectory, SnapshotReply::Compared { .. }) => true,
            (SnapshotStep::OpenTranslator, SnapshotReply::Found(_)) => true,
            (SnapshotStep::CheckTranslator, SnapshotReply::Compared { .. }) => true,
            (SnapshotStep::Read { len, .. }, SnapshotReply::Read(read)) => read matches ReadReply::Read(
                count,
            ) ==> count <= len,
            _ => false,
        }
    }

    /// What an answer leads to.
    pub open spec fn phase_after(self, reply: SnapshotReply) -> SnapshotPhase {
        match (self.phase, reply) {
            (_, SnapshotReply::Refused(error)) => SnapshotPhase::Failed(RosettaError::Host(error)),
            (SnapshotPhase::Base, SnapshotReply::Opened) => self.at_component(0),
            (SnapshotPhase::Component(index), SnapshotReply::Compared { opened, named }) => if opened
                == named {
                self.at_component(index + 1)
            } else {
                SnapshotPhase::Failed(RosettaError::RootChanged)
            },
            (SnapshotPhase::Directory, SnapshotReply::Found(directory)) =>
                SnapshotPhase::DirectoryOpened { directory },
            (
                SnapshotPhase::DirectoryOpened { directory },
                SnapshotReply::Compared { opened, named },
            ) => if_current(opened, named, directory, SnapshotPhase::Translator { directory }),
            (SnapshotPhase::Translator { directory }, SnapshotReply::Found(file)) => if is_translator(
                file,
            ) {
                SnapshotPhase::TranslatorOpened { directory, file }
            } else {
                SnapshotPhase::Failed(RosettaError::UnsuitableTranslator)
            },
            (
                SnapshotPhase::TranslatorOpened { directory, file },
                SnapshotReply::Compared { opened, named },
            ) => if_current(opened, named, file, reading_from(directory, file, 0)),
            (SnapshotPhase::Reading { directory, file, offset }, SnapshotReply::Read(read)) => match read {
                ReadReply::Read(count) => if count == 0 {
                    SnapshotPhase::Failed(RosettaError::UnexpectedEof)
                } else {
                    reading_from(directory, file, offset + count)
                },
                ReadReply::Interrupted => self.phase,
                ReadReply::Failed(error) => SnapshotPhase::Failed(RosettaError::Host(error)),
            },
            (
                SnapshotPhase::TranslatorRead { directory, file },
                SnapshotReply::Compared { opened, named },
            ) => if_current(
                opened,
                named,
                file,
                SnapshotPhase::TranslatorChecked { directory, file },
            ),
            (
                SnapshotPhase::TranslatorChecked { directory, file },
                SnapshotReply::Compared { opened, named },
            ) => if_current(opened, named, directory, SnapshotPhase::Finished { file }),
            _ => self.phase,
        }
    }

    /// A new run for the directory with this path, which has to start at the root.
    pub fn new(host_root: &Vec<u8>) -> (result: Result<SnapshotRun, RosettaError>)
        ensures
            result is Ok == (host_root@.len() > 0 && host_root@[0] == 0x2f),
            match result {
                Ok(run) => run.wf() && run.phase == SnapshotPhase::Base && views(run.components@)
                    == named_parts(path_parts(host_root@)),
                Err(error) => error == RosettaError::InvalidProfile,
            },
    {
        if host_root.len() == 0 || host_root[0] != 0x2f {
            return Err(RosettaError::InvalidProfile);
        }
        Ok(SnapshotRun { components: named_components(host_root), phase: SnapshotPhase::Base })
    }

    /// What the host is asked for next.
    pub fn step(&self) -> (step: SnapshotStep)
        requires
            self.wf(),
        ensures
            step == self.step_spec(),
    {
        match self.phase {
            SnapshotPhase::Base => SnapshotStep::OpenBase,
            SnapshotPhase::Component(index) => SnapshotStep::OpenComponent(index),
            SnapshotPhase::Directory => SnapshotStep::LookAtDirectory,
            SnapshotPhase::DirectoryOpened { .. } => SnapshotStep::CheckDirectory,
            SnapshotPhase::Translator { .. } => SnapshotStep::OpenTranslator,
            SnapshotPhase::TranslatorOpened { .. } => SnapshotStep::CheckTranslator,
            SnapshotPhase::Reading { file, offset, .. } => SnapshotStep::Read {
                offset,
                len: file.size as usize - offset,
            },
            SnapshotPhase::TranslatorRead { .. } => SnapshotStep::CheckTranslator,
            SnapshotPhase::TranslatorChecked { .. } => SnapshotStep::CheckDirectory,
            SnapshotPhase::Finished { .. } => SnapshotStep::Finished,
            SnapshotPhase::Failed(error) => SnapshotStep::Failed(error),
        }
    }

    fn component_phase(&self, index: usize) -> (phase: SnapshotPhase)
        ensures
            phase == self.at_component(index as int),
    {
        if index >= self.components.len() {
            if index == 0 {
                SnapshotPhase::Failed(RosettaError::RootOfFileSystem)
            } else {
                SnapshotPhase::Directory
            }
        } else if names_parent(&self.components[index]) {
            SnapshotPhase::Failed(RosettaError::InvalidComponent)
        } else {
            SnapshotPhase::Component(index)
        }
    }

    /// Takes the host's answer to what was asked for.
    pub fn accept(&mut self, reply: SnapshotReply)
        requires
            old(self).wf(),
            old(self).answers(reply),
        ensures
            final(self).wf(),
            *final(self) == (SnapshotRun { phase: old(self).phase_after(reply), ..*old(self) }),
    {
        if let SnapshotReply::Refused(error) = reply {
            self.phase = SnapshotPhase::Failed(RosettaError::Host(error));
            return;
        }
        let count: usize = self.components.len();
        let next = match (self.phase, reply) {
            (SnapshotPhase::Base, SnapshotReply::Opened) => self.component_phase(0),
            (SnapshotPhase::Component(index), SnapshotReply::Compared { opened, named }) => {
                match judge_component(opened, named) {
                    Ok(()) => {
                        assert(index < count);
                        self.component_phase(index + 1)
                    },
                    Err(error) => SnapshotPhase::Failed(error),
                }
            },
            (SnapshotPhase::Directory, SnapshotReply::Found(directory)) => {
                SnapshotPhase::DirectoryOpened { directory }
            },
            (
                SnapshotPhase::DirectoryOpened { directory },
                SnapshotReply::Compared { opened, named },
            ) => match verify_current(opened, named, directory) {
                Ok(()) => SnapshotPhase::Translator { directory },
                Err(error) => SnapshotPhase::Failed(error),
            },
            (SnapshotPhase::Translator { directory }, SnapshotReply::Found(file)) => {
                match judge_translator(file) {
                    Ok(_) => SnapshotPhase::TranslatorOpened { directory, file },
                    Err(error) => SnapshotPhase::Failed(error),
                }
            },
            (
                SnapshotPhase::TranslatorOpened { directory, file },
                SnapshotReply::Compared { opened, named },
            ) => match verify_current(opened, named, file) {
                Ok(()) => read_on(directory, file, 0),
                Err(error) => SnapshotPhase::Failed(error),
            },
            (SnapshotPhase::Reading { directory, file, offset }, SnapshotReply::Read(read)) => {
                match read {
                    ReadReply::Read(count) => {
                        if count == 0 {
                            SnapshotPhase::Failed(RosettaError::UnexpectedEof)
                        } else {
                            read_on(directory, file, offset + count)
                        }
                    },
                    ReadReply::Interrupted => self.phase,
                    ReadReply::Failed(error) => SnapshotPhase::Failed(RosettaError::Host(error)),
                }
            },
            (
                SnapshotPhase::TranslatorRead { directory, file },
                SnapshotReply::Compared { opened, named },
            ) => match verify_current(opened, named, file) {
                Ok(()) => SnapshotPhase::TranslatorChecked { directory, file },
                Err(error) => SnapshotPhase::Failed(error),
            },
            (
                SnapshotPhase::TranslatorChecked { directory, file },
                SnapshotReply::Compared { opened, named },
            ) => match verify_current(opened, named, directory) {
                Ok(()) => SnapshotPhase::Finished { file },
                Err(error) => SnapshotPhase::Failed(error),
            },
            _ => self.phase,
        };
        self.phase = next;
    }
}

fn read_on(directory: FileIdentity, file: FileIdentity, offset: usize) -> (phase: SnapshotPhase)
    requires
        is_translator(file),
        offset <= file.size,
    ensures
        phase == reading_from(directory, file, offset as int),
{
    if offset < file.size as usize {
        SnapshotPhase::Reading { directory, file, offset }
    } else {
        SnapshotPhase::TranslatorRead { directory, file }
    }
}

/// The run after a sequence of answers.
pub open spec fn reached(run: SnapshotRun, replies: Seq<SnapshotReply>) -> SnapshotRun
    decreases replies.len(),
{
    if replies.len() == 0 {
        run
    } else {
        let before = reached(run, replies.drop_last());
        SnapshotRun { phase: before.phase_after(replies.last()), ..before }
    }
}

/// Every answer is one to what was asked for when it came.
pub open spec fn all_answer(run: SnapshotRun, replies: Seq<SnapshotReply>) -> bool
    decreases replies.len(),
{
    replies.len() == 0 || (all_answer(run, replies.drop_last()) && reached(
        run,
        replies.drop_last(),
    ).answers(replies.last()))
}

/// The number of bytes that were read.
pub open spec fn bytes_read(replies: Seq<SnapshotReply>) -> int
    decreases replies.len(),
{
    if replies.len() == 0 {
        0
    } else {
        bytes_read(replies.drop_last()) + (match replies.last() {
            SnapshotReply::Read(ReadReply::Read(count)) => count as int,
            _ => 0,
        })
    }
}

/// A snapshot that was taken is whole, and neither the translator nor its directory has changed
/// since they were first looked at: behind the last read both are still open as they were, and
/// still have their names.
pub proof fn law_finished_snapshots_are_whole_and_unchanged(
    run: SnapshotRun,
    replies: Seq<SnapshotReply>,
    file: FileIdentity,
)
    requires
        run.phase == SnapshotPhase::Base,
        all_answer(run, replies),
        reached(run, replies).phase == (SnapshotPhase::Finished { file }),
    ensures
        is_translator(file),
        bytes_read(replies) == file.size,
        replies.len() >= 2,
        replies[replies.len() - 2] == (SnapshotReply::Compared { opened: file, named: file }),
        replies.last() matches SnapshotReply::Compared { opened, named } && opened == named
            && replies.contains(SnapshotReply::Found(opened)),
        replies.contains(SnapshotReply::Found(file)),
{
    lemma_reached(run, replies);
    let before = replies.drop_last();
    lemma_reached(run, before);
    let directory = reached(run, before).phase->TranslatorChecked_directory;
    lemma_kept_answers(before, replies.last(), SnapshotReply::Found(directory));
    lemma_kept_answers(before, replies.last(), SnapshotReply::Found(file));
}

proof fn lemma_kept_answers(before: Seq<SnapshotReply>, last: SnapshotReply, kept: SnapshotReply)
    requires
        before.contains(kept),
    ensures
        before.push(last).contains(kept),
{
    let i = choose|i: int| 0 <= i < before.len() && before[i] == kept;
    assert(before.push(last)[i] == kept);
}

/// What is known in each phase of the answers that led there.
pub open spec fn answers_kept(phase: SnapshotPhase, replies: Seq<SnapshotReply>) -> bool {
    match phase {
        SnapshotPhase::Reading { directory, file, offset } => {
            &&& is_translator(file)
            &&& bytes_read(replies) == offset < file.size
            &&& replies.contains(SnapshotReply::Found(directory))
            &&& replies.contains(SnapshotReply::Found(file))
        },
        SnapshotPhase::TranslatorRead { directory, file } => {
            &&& is_translator(file)
            &&& bytes_read(replies) == file.size
            &&& replies.contains(SnapshotReply::Found(directory))
            &&& replies.contains(SnapshotReply::Found(file))
        },
        SnapshotPhase::TranslatorChecked { directory, file } => {
            &&& is_translator(file)
            &&& bytes_read(replies) == file.size
            &&& replies.contains(SnapshotReply::Found(directory))
            &&& replies.contains(SnapshotReply::Found(file))
            &&& replies.len() > 0
            &&& replies.last() == (SnapshotReply::Compared { opened: file, named: file })
        },
        SnapshotPhase::Finished { file } => is_translator(file) && bytes_read(replies) == file.size
            && replies.len() > 0,
        SnapshotPhase::Failed(_) => true,
        SnapshotPhase::TranslatorOpened { directory, file } => {
            &&& is_translator(file)
            &&& bytes_read(replies) == 0
            &&& replies.contains(SnapshotReply::Found(directory))
            &&& replies.contains(SnapshotReply::Found(file))
        },
        SnapshotPhase::DirectoryOpened { directory } => bytes_read(replies) == 0
            && replies.contains(SnapshotReply::Found(directory)),
        SnapshotPhase::Translator { directory } => bytes_read(replies) == 0 && replies.contains(
            SnapshotReply::Found(directory),
        ),
        _ => bytes_read(replies) == 0,
    }
}

proof fn lemma_reached(run: SnapshotRun, replies: Seq<SnapshotReply>)
    requires
        run.phase == SnapshotPhase::Base,
        all_answer(run, replies),
    ensures
        answers_kept(reached(run, replies).phase, replies),
    decreases replies.len(),
{
    if replies.len() > 0 {
        let before = replies.drop_last();
        let last = replies.last();
        lemma_reached(run, before);
        assert(replies == before.push(last));
        assert(replies[replies.len() - 1] == last);
        assert forall|kept: SnapshotReply| before.contains(kept) implies #[trigger] replies.contains(
            kept,
        ) by {
            lemma_kept_answers(before, last, kept);
        }
        assert(replies.contains(last));
    }
}

} // verus!

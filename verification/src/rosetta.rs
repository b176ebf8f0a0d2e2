//! An immutable file system that holds one translator executable.
//!
//! The directory and the file are opened and read by the caller; this module judges what
//! was found, and answers the guest's requests from the snapshot that was taken.
use std::collections::HashMap;
use vstd::prelude::*;
use vstd::utf8::{length_of_first_scalar, pop_first_scalar, valid_first_scalar, valid_utf8};

verus! {

broadcast use vstd::std_specs::hash::group_hash_axioms;

pub const ROOT_INODE: u64 = 1;
pub const TRANSLATOR_INODE: u64 = 2;

pub const CAPTURED_RESPONSE_SIZE: usize = 1024;
pub const SHA256_SIZE: usize = 32;
pub const MAX_ROOT_LENGTH: usize = 4096;

/// The bound on open handles of one device.
pub const MAX_OPEN_HANDLES: usize = 65_536;

pub const LINUX_W_OK: u32 = 2;
pub const LINUX_DT_DIR: u32 = 4;
pub const LINUX_DT_REG: u32 = 8;

/// A directory, or a regular file, that everybody may read and execute.
pub const DIRECTORY_MODE: u16 = 0x416d;
pub const FILE_MODE: u16 = 0x816d;

/// Error numbers of the guest.
#[derive(Clone, Copy, Debug, PartialEq, Eq, Structural)]
pub enum LinuxErrno {
    NoEntry,
    BadHandle,
    NotDirectory,
    IsDirectory,
    InvalidArgument,
    TooManyOpenFiles,
    NotTerminal,
    ReadOnlyFileSystem,
    NotImplemented,
    NoData,
}

impl LinuxErrno {
    pub open spec fn number(self) -> i32 {
        match self {
            LinuxErrno::NoEntry => 2,
            LinuxErrno::BadHandle => 9,
            LinuxErrno::NotDirectory => 20,
            LinuxErrno::IsDirectory => 21,
            LinuxErrno::InvalidArgument => 22,
            LinuxErrno::TooManyOpenFiles => 24,
            LinuxErrno::NotTerminal => 25,
            LinuxErrno::ReadOnlyFileSystem => 30,
            LinuxErrno::NotImplemented => 38,
            LinuxErrno::NoData => 61,
        }
    }

    pub fn raw_os_error(self) -> (result: i32)
        ensures
            result == self.number(),
    {
        match self {
            LinuxErrno::NoEntry => 2,
            LinuxErrno::BadHandle => 9,
            LinuxErrno::NotDirectory => 20,
            LinuxErrno::IsDirectory => 21,
            LinuxErrno::InvalidArgument => 22,
            LinuxErrno::TooManyOpenFiles => 24,
            LinuxErrno::NotTerminal => 25,
            LinuxErrno::ReadOnlyFileSystem => 30,
            LinuxErrno::NotImplemented => 38,
            LinuxErrno::NoData => 61,
        }
    }
}

/// Why the file system could not be set up.
#[derive(Clone, Copy, Debug, PartialEq, Eq, Structural)]
pub enum RosettaError {
    /// The path, the digest, the result or the response has the wrong form.
    InvalidProfile,
    /// The path has a component that leads upwards.
    InvalidComponent,
    /// The path is the root of the host's file system.
    RootOfFileSystem,
    /// A directory on the way changed while it was opened.
    RootChanged,
    /// The file, or the directory that holds it, changed.
    SourceChanged,
    /// The file is not a bounded executable regular file.
    UnsuitableTranslator,
    /// The file ended before its size.
    UnexpectedEof,
    /// The digest is not the expected one.
    DigestMismatch,
    /// The host refused, with this error number.
    Host(i32),
}

#[derive(Clone, Copy, Debug, PartialEq, Eq, Structural)]
pub enum RosettaProfile {
    CapturedCompatibilityV1,
}

/// The translator and the captured answer to its compatibility request.
#[derive(Debug)]
pub struct RosettaFsConfig {
    pub profile: RosettaProfile,
    pub snapshot: Vec<u8>,
    pub captured_result: i32,
    pub captured_response: Vec<u8>,
}

/// The path is absolute, bounded text, and digest, response and result have their form.
pub open spec fn profile_valid(
    host_root: Seq<u8>,
    expected_sha256: Seq<u8>,
    captured_result: i32,
    captured_response: Seq<u8>,
) -> bool {
    &&& 0 < host_root.len() <= MAX_ROOT_LENGTH
    &&& host_root[0] == 0x2f
    &&& valid_utf8(host_root)
    &&& !host_root.contains(0)
    &&& expected_sha256.len() == SHA256_SIZE
    &&& captured_response.len() == CAPTURED_RESPONSE_SIZE
    &&& captured_result >= 0
}

/// The width of the character that starts at a place, if one does.
fn character_width(bytes: &Vec<u8>, at: usize) -> (result: Option<usize>)
    requires
        at < bytes@.len(),
    ensures
        ({
            let rest = bytes@.subrange(at as int, bytes@.len() as int);
            match result {
                Some(width) => valid_first_scalar(rest) && width == length_of_first_scalar(rest)
                    && at + width <= bytes@.len(),
                None => !valid_first_scalar(rest),
            }
        }),
{
    let ghost rest = bytes@.subrange(at as int, bytes@.len() as int);
    let left: usize = bytes.len() - at;
    let first: u8 = bytes[at];
    assert(rest[0] == first);
    if first <= 0x7f {
        assert((first & 0x7f) as u32 <= 0x7f) by (bit_vector);
        return Some(1);
    }
    if first < 0xc0 || first > 0xf7 || left < 2 {
        return None;
    }
    let second: u8 = bytes[at + 1];
    assert(rest[1] == second);
    if second < 0x80 || second > 0xbf {
        return None;
    }
    if first <= 0xdf {
        let scalar: u32 = (((first & 0x1f) as u32) << 6) | ((second & 0x3f) as u32);
        assert(scalar <= 0x7ff) by (bit_vector)
            requires
                scalar == (((first & 0x1f) as u32) << 6) | ((second & 0x3f) as u32),
        ;
        return if scalar >= 0x80 {
            Some(2)
        } else {
            None
        };
    }
    if left < 3 {
        return None;
    }
    let third: u8 = bytes[at + 2];
    assert(rest[2] == third);
    if third < 0x80 || third > 0xbf {
        return None;
    }
    if first <= 0xef {
        let scalar: u32 = (((first & 0x0f) as u32) << 12) | (((second & 0x3f) as u32) << 6) | ((third
            & 0x3f) as u32);
        return if scalar >= 0x800 && !(0xd800 <= scalar && scalar <= 0xdfff) {
            Some(3)
        } else {
            None
        };
    }
    if left < 4 {
        return None;
    }
    let fourth: u8 = bytes[at + 3];
    assert(rest[3] == fourth);
    if fourth < 0x80 || fourth > 0xbf {
        return None;
    }
    let scalar: u32 = (((first & 0x07) as u32) << 18) | (((second & 0x3f) as u32) << 12) | (((third
        & 0x3f) as u32) << 6) | ((fourth & 0x3f) as u32);
    if scalar >= 0x1_0000 && scalar <= 0x10_ffff {
        Some(4)
    } else {
        None
    }
}

/// Whether the bytes are text in UTF-8.
fn is_text(bytes: &Vec<u8>) -> (result: bool)
    ensures
        result == valid_utf8(bytes@),
{
    let mut at: usize = 0;
    assert(bytes@.subrange(0, bytes@.len() as int) =~= bytes@);
    while at < bytes.len()
        invariant
            at <= bytes@.len(),
            valid_utf8(bytes@) == valid_utf8(bytes@.subrange(at as int, bytes@.len() as int)),
        decreases bytes.len() - at,
    {
        let ghost rest = bytes@.subrange(at as int, bytes@.len() as int);
        match character_width(bytes, at) {
            None => return false,
            Some(width) => {
                assert(pop_first_scalar(rest) =~= bytes@.subrange(
                    at + width,
                    bytes@.len() as int,
                ));
                at = at + width;
            },
        }
    }
    true
}

fn contains_zero(bytes: &Vec<u8>) -> (result: bool)
    ensures
        result == bytes@.contains(0),
{
    let mut i: usize = 0;
    while i < bytes.len()
        invariant
            i <= bytes.len(),
            forall|k: int| 0 <= k < i ==> bytes@[k] != 0,
        decreases bytes.len() - i,
    {
        if bytes[i] == 0 {
            assert(bytes@[i as int] == 0);
            return true;
        }
        i = i + 1;
    }
    false
}

/// Whether two byte strings are the same.
fn same_bytes(first: &Vec<u8>, second: &Vec<u8>) -> (result: bool)
    ensures
        result == (first@ == second@),
{
    if first.len() != second.len() {
        return false;
    }
    let mut i: usize = 0;
    while i < first.len()
        invariant
            i <= first.len(),
            first.len() == second.len(),
            forall|k: int| 0 <= k < i ==> first@[k] == second@[k],
        decreases first.len() - i,
    {
        if first[i] != second[i] {
            assert(first@[i as int] != second@[i as int]);
            return false;
        }
        i = i + 1;
    }
    assert(first@ == second@);
    true
}

/// What reading the translator and digesting it came to.
#[derive(Debug)]
pub struct TranslatorSource {
    pub snapshot: Vec<u8>,
    pub digest: Vec<u8>,
}

impl RosettaFsConfig {
    pub open spec fn wf(self) -> bool {
        self.captured_response@.len() == CAPTURED_RESPONSE_SIZE && self.captured_result >= 0
    }

    /// Whether a profile has the form that is worth opening the host directory for.
    pub fn check_profile(
        host_root: &Vec<u8>,
        expected_sha256: &Vec<u8>,
        captured_result: i32,
        captured_response: &Vec<u8>,
    ) -> (result: bool)
        ensures
            result == profile_valid(
                host_root@,
                expected_sha256@,
                captured_result,
                captured_response@,
            ),
    {
        if host_root.len() == 0 || host_root.len() > MAX_ROOT_LENGTH {
            return false;
        }
        host_root[0] == 0x2f && is_text(host_root) && !contains_zero(host_root) && expected_sha256.len()
            == SHA256_SIZE && captured_response.len() == CAPTURED_RESPONSE_SIZE && captured_result
            >= 0
    }

    /// Makes a configuration of a profile and what the host directory held. `source` is
    /// looked at only where the profile has its form.
    pub fn from_host(
        profile: RosettaProfile,
        host_root: &Vec<u8>,
        expected_sha256: &Vec<u8>,
        captured_result: i32,
        captured_response: Vec<u8>,
        source: Result<TranslatorSource, RosettaError>,
    ) -> (result: Result<RosettaFsConfig, RosettaError>)
        ensures
            ({
                let valid = profile_valid(
                    host_root@,
                    expected_sha256@,
                    captured_result,
                    captured_response@,
                );
                &&& !valid ==> result == Err::<RosettaFsConfig, _>(RosettaError::InvalidProfile)
                &&& valid ==> match source {
                    Err(error) => result == Err::<RosettaFsConfig, _>(error),
                    Ok(found) => if found.digest@ != expected_sha256@ {
                        result == Err::<RosettaFsConfig, _>(RosettaError::DigestMismatch)
                    } else {
                        result == Ok::<RosettaFsConfig, RosettaError>(
                            (RosettaFsConfig {
                                profile,
                                snapshot: found.snapshot,
                                captured_result,
                                captured_response,
                            }),
                        )
                    },
                }
            }),
            result matches Ok(config) ==> config.wf(),
    {
        if !RosettaFsConfig::check_profile(
            host_root,
            expected_sha256,
            captured_result,
            &captured_response,
        ) {
            return Err(RosettaError::InvalidProfile);
        }
        let found = match source {
            Ok(found) => found,
            Err(error) => return Err(error),
        };
        if !same_bytes(&found.digest, expected_sha256) {
            return Err(RosettaError::DigestMismatch);
        }
        Ok(
            RosettaFsConfig {
                profile,
                snapshot: found.snapshot,
                captured_result,
                captured_response,
            },
        )
    }
}

#[derive(Clone, Copy, Debug, PartialEq, Eq, Structural)]
pub enum HandleKind {
    File,
    Directory,
}

/// The open handles of the file system. A number is used once.
#[derive(Debug)]
pub struct HandleTable {
    pub next: u64,
    pub limit: usize,
    pub destroyed: bool,
    pub active: HashMap<u64, HandleKind>,
}

impl HandleTable {
    pub open spec fn wf(self) -> bool {
        &&& self.next >= 1
        &&& self.active@.dom().finite()
        &&& self.active@.len() <= self.limit
        &&& self.destroyed ==> self.active@ == Map::<u64, HandleKind>::empty()
        &&& forall|handle: u64| #[trigger] self.active@.contains_key(handle) ==> handle < self.next
    }

    /// `handle` is open, as the kind of thing asked for.
    pub open spec fn is_open(self, handle: u64, kind: HandleKind) -> bool {
        !self.destroyed && self.active@.contains_key(handle) && self.active@[handle] == kind
    }

    /// What opening something comes to.
    pub open spec fn allocation(self) -> Result<u64, LinuxErrno> {
        if self.destroyed {
            Err(LinuxErrno::BadHandle)
        } else if self.active@.len() >= self.limit || self.next == u64::MAX {
            Err(LinuxErrno::TooManyOpenFiles)
        } else {
            Ok(self.next)
        }
    }

    pub fn new(limit: usize) -> (result: HandleTable)
        ensures
            result.wf(),
            result.next == 1,
            result.limit == limit,
            !result.destroyed,
            result.active@ == Map::<u64, HandleKind>::empty(),
    {
        HandleTable { next: 1, limit, destroyed: false, active: HashMap::new() }
    }

    pub fn allocate_handle(&mut self, kind: HandleKind) -> (result: Result<u64, LinuxErrno>)
        requires
            old(self).wf(),
        ensures
            final(self).wf(),
            result == old(self).allocation(),
            result is Err ==> *final(self) == *old(self),
            result matches Ok(handle) ==> {
                &&& final(self).active@ == old(self).active@.insert(handle, kind)
                &&& final(self).next == old(self).next + 1
                &&& final(self).limit == old(self).limit
                &&& final(self).destroyed == old(self).destroyed
                &&& !old(self).active@.contains_key(handle)
            },
    {
        if self.destroyed {
            return Err(LinuxErrno::BadHandle);
        }
        if self.active.len() >= self.limit {
            return Err(LinuxErrno::TooManyOpenFiles);
        }
        if self.next == u64::MAX {
            return Err(LinuxErrno::TooManyOpenFiles);
        }
        let id: u64 = self.next;
        self.next = id + 1;
        self.active.insert(id, kind);
        Ok(id)
    }

    pub fn check_handle(&self, handle: u64, kind: HandleKind) -> (result: Result<(), LinuxErrno>)
        ensures
            result == if self.is_open(handle, kind) {
                Ok::<(), LinuxErrno>(())
            } else {
                Err(LinuxErrno::BadHandle)
            },
    {
        if self.destroyed {
            return Err(LinuxErrno::BadHandle);
        }
        match self.active.get(&handle) {
            Some(found) => if *found == kind {
                Ok(())
            } else {
                Err(LinuxErrno::BadHandle)
            },
            None => Err(LinuxErrno::BadHandle),
        }
    }

    pub fn release_handle(&mut self, handle: u64, kind: HandleKind) -> (result: Result<
        (),
        LinuxErrno,
    >)
        requires
            old(self).wf(),
        ensures
            final(self).wf(),
            result == if old(self).is_open(handle, kind) {
                Ok::<(), LinuxErrno>(())
            } else {
                Err(LinuxErrno::BadHandle)
            },
            result is Err ==> *final(self) == *old(self),
            final(self).next == old(self).next,
            final(self).limit == old(self).limit,
            final(self).destroyed == old(self).destroyed,
            result is Ok ==> final(self).active@ == old(self).active@.remove(handle),
    {
        match self.check_handle(handle, kind) {
            Ok(()) => {},
            Err(error) => return Err(error),
        }
        self.active.remove(&handle);
        Ok(())
    }

    /// Closes everything for good.
    pub fn destroy(&mut self)
        ensures
            final(self).destroyed,
            final(self).active@ == Map::<u64, HandleKind>::empty(),
            final(self).next == old(self).next,
            final(self).limit == old(self).limit,
            old(self).wf() ==> final(self).wf(),
    {
        self.destroyed = true;
        self.active.clear();
    }
}

/// The attributes of a file or directory.
#[derive(Clone, Copy, Debug, PartialEq, Eq, Structural)]
pub struct FileAttributes {
    pub ino: u64,
    pub mode: u16,
    pub nlink: u32,
    pub size: u64,
    pub blksize: u32,
    pub blocks: u64,
}

/// A directory entry as a lookup returns it. It may be cached for ever.
#[derive(Clone, Copy, Debug, PartialEq, Eq, Structural)]
pub struct FsEntry {
    pub inode: u64,
    pub generation: u64,
    pub attr: FileAttributes,
    pub attr_flags: u32,
}

/// A directory entry as a directory read returns it.
#[derive(Debug)]
pub struct DirEntry {
    pub ino: u64,
    pub offset: u64,
    pub kind: u32,
    pub name: Vec<u8>,
}

/// File system statistics.
#[derive(Clone, Copy, Debug, PartialEq, Eq, Structural)]
pub struct FsStatistics {
    pub block_size: u64,
    pub fragment_size: u64,
    pub files: u64,
    pub name_max: u64,
    pub read_only: bool,
}

/// The answer to a device request.
#[derive(Debug)]
pub struct IoctlReply {
    pub result: i32,
    pub data: Vec<u8>,
}

/// The answer to a request for attribute names.
#[derive(Clone, Copy, Debug, PartialEq, Eq, Structural)]
pub enum ListxattrReply {
    Count(u32),
    NoNames,
}

/// Requests that this file system turns down whatever their arguments.
#[derive(Clone, Copy, Debug, PartialEq, Eq, Structural)]
pub enum RefusedRequest {
    Setattr,
    Symlink,
    Mknod,
    Mkdir,
    Unlink,
    Rmdir,
    Rename,
    Link,
    Create,
    Write,
    Fallocate,
    Setxattr,
    Removexattr,
    Getxattr,
    Setupmapping,
    Removemapping,
}

/// The flags ask for more than reading, or for truncation.
pub open spec fn wants_to_write(flags: u32) -> bool {
    flags & 0b11 != 0 || flags & 0x200 != 0
}

fn write_requested(flags: u32) -> (result: bool)
    ensures
        result == wants_to_write(flags),
{
    flags & 0b11 != 0 || flags & 0x200 != 0
}

/// The attributes of an inode whose contents have `size` bytes.
pub open spec fn attributes(inode: u64, size: u64) -> FileAttributes {
    FileAttributes {
        ino: inode,
        mode: if inode == ROOT_INODE {
            DIRECTORY_MODE
        } else {
            FILE_MODE
        },
        nlink: if inode == ROOT_INODE {
            2
        } else {
            1
        },
        size,
        blksize: 4096,
        blocks: ((size + 511) / 512) as u64,
    }
}

/// The immutable file system.
#[derive(Debug)]
pub struct ImmutableRosettaFs {
    pub config: RosettaFsConfig,
    pub handles: HandleTable,
}

impl ImmutableRosettaFs {
    pub open spec fn wf(self) -> bool {
        self.config.wf() && self.handles.wf()
    }

    /// What a lookup by inode comes to.
    pub open spec fn entry_of(self, inode: u64) -> Result<FsEntry, LinuxErrno> {
        if inode == ROOT_INODE {
            Ok(FsEntry { inode, generation: 1, attr: attributes(inode, 0), attr_flags: 0 })
        } else if inode == TRANSLATOR_INODE {
            Ok(
                FsEntry {
                    inode,
                    generation: 1,
                    attr: attributes(inode, self.config.snapshot@.len() as u64),
                    attr_flags: 0,
                },
            )
        } else {
            Err(LinuxErrno::NoEntry)
        }
    }

    pub fn new(config: RosettaFsConfig) -> (result: ImmutableRosettaFs)
        requires
            config.wf(),
        ensures
            result.wf(),
            result.config == config,
            result.handles.limit == MAX_OPEN_HANDLES,
            result.handles.next == 1,
            !result.handles.destroyed,
            result.handles.active@ == Map::<u64, HandleKind>::empty(),
    {
        ImmutableRosettaFs::with_handle_limit(config, MAX_OPEN_HANDLES)
    }

    pub fn with_handle_limit(config: RosettaFsConfig, handle_limit: usize) -> (result:
        ImmutableRosettaFs)
        requires
            config.wf(),
        ensures
            result.wf(),
            result.config == config,
            result.handles.limit == handle_limit,
            result.handles.next == 1,
            !result.handles.destroyed,
            result.handles.active@ == Map::<u64, HandleKind>::empty(),
    {
        ImmutableRosettaFs { config, handles: HandleTable::new(handle_limit) }
    }

    fn stat(inode: u64, size: u64) -> (result: FileAttributes)
        ensures
            result == attributes(inode, size),
    {
        let whole: u64 = size / 512;
        let blocks: u64 = if size % 512 == 0 {
            whole
        } else {
            whole + 1
        };
        FileAttributes {
            ino: inode,
            mode: if inode == ROOT_INODE {
                DIRECTORY_MODE
            } else {
                FILE_MODE
            },
            nlink: if inode == ROOT_INODE {
                2
            } else {
                1
            },
            size,
            blksize: 4096,
            blocks,
        }
    }

    fn entry(&self, inode: u64) -> (result: Result<FsEntry, LinuxErrno>)
        ensures
            result == self.entry_of(inode),
    {
        let size: u64 = if inode == ROOT_INODE {
            0
        } else if inode == TRANSLATOR_INODE {
            self.config.snapshot.len() as u64
        } else {
            return Err(LinuxErrno::NoEntry);
        };
        Ok(
            FsEntry {
                inode,
                generation: 1,
                attr: ImmutableRosettaFs::stat(inode, size),
                attr_flags: 0,
            },
        )
    }

    /// Closes everything for good.
    pub fn destroy(&mut self)
        ensures
            final(self).config == old(self).config,
            final(self).handles.destroyed,
            final(self).handles.active@ == Map::<u64, HandleKind>::empty(),
            final(self).handles.next == old(self).handles.next,
            final(self).handles.limit == old(self).handles.limit,
            old(self).wf() ==> final(self).wf(),
    {
        self.handles.destroy();
    }

    /// Looks a name up in a directory.
    pub fn lookup(&self, parent: u64, name: &Vec<u8>) -> (result: Result<FsEntry, LinuxErrno>)
        ensures
            result == if parent != ROOT_INODE {
                Err::<FsEntry, LinuxErrno>(LinuxErrno::NotDirectory)
            } else if name@ == seq![0x2eu8] {
                self.entry_of(ROOT_INODE)
            } else if name@ == translator_name() {
                self.entry_of(TRANSLATOR_INODE)
            } else {
                Err(LinuxErrno::NoEntry)
            },
    {
        if parent != ROOT_INODE {
            return Err(LinuxErrno::NotDirectory);
        }
        if name.len() == 1 && name[0] == 0x2e {
            assert(name@ == seq![0x2eu8]);
            return self.entry(ROOT_INODE);
        }
        if same_bytes(name, &translator_bytes()) {
            assert(name@ != seq![0x2eu8]) by {
                assert(translator_name().len() == 7);
            }
            return self.entry(TRANSLATOR_INODE);
        }
        Err(LinuxErrno::NoEntry)
    }

    /// The attributes of an inode; a handle that is given must be open on it.
    pub fn getattr(&self, inode: u64, handle: Option<u64>) -> (result: Result<
        FileAttributes,
        LinuxErrno,
    >)
        ensures
            result == if self.entry_of(inode) is Err {
                Err::<FileAttributes, LinuxErrno>(LinuxErrno::NoEntry)
            } else if handle matches Some(handle) && !self.handles.is_open(
                handle,
                if inode == ROOT_INODE {
                    HandleKind::Directory
                } else {
                    HandleKind::File
                },
            ) {
                Err(LinuxErrno::BadHandle)
            } else {
                Ok(self.entry_of(inode)->Ok_0.attr)
            },
    {
        if let Some(handle) = handle {
            let kind = if inode == ROOT_INODE {
                HandleKind::Directory
            } else if inode == TRANSLATOR_INODE {
                HandleKind::File
            } else {
                return Err(LinuxErrno::NoEntry);
            };
            match self.handles.check_handle(handle, kind) {
                Ok(()) => {},
                Err(error) => return Err(error),
            }
        }
        match self.entry(inode) {
            Ok(entry) => Ok(entry.attr),
            Err(error) => Err(error),
        }
    }

    /// Opens the translator for reading.
    pub fn open(&mut self, inode: u64, flags: u32) -> (result: Result<u64, LinuxErrno>)
        requires
            old(self).wf(),
        ensures
            final(self).wf(),
            final(self).config == old(self).config,
            result == if inode == ROOT_INODE {
                Err::<u64, LinuxErrno>(LinuxErrno::IsDirectory)
            } else if inode != TRANSLATOR_INODE {
                Err(LinuxErrno::NoEntry)
            } else if wants_to_write(flags) {
                Err(LinuxErrno::ReadOnlyFileSystem)
            } else {
                old(self).handles.allocation()
            },
            result is Err ==> *final(self) == *old(self),
            result matches Ok(handle) ==> final(self).handles.active@ == old(
                self,
            ).handles.active@.insert(handle, HandleKind::File) && final(self).handles.next == old(
                self,
            ).handles.next + 1 && final(self).handles.limit == old(self).handles.limit && !final(self).handles.destroyed,
    {
        if inode == ROOT_INODE {
            return Err(LinuxErrno::IsDirectory);
        }
        if inode != TRANSLATOR_INODE {
            return Err(LinuxErrno::NoEntry);
        }
        if write_requested(flags) {
            return Err(LinuxErrno::ReadOnlyFileSystem);
        }
        self.handles.allocate_handle(HandleKind::File)
    }

    /// Reads from the translator.
    pub fn read(&self, inode: u64, handle: u64, size: u32, offset: u64) -> (result: Result<
        Vec<u8>,
        LinuxErrno,
    >)
        ensures
            inode == ROOT_INODE ==> result == Err::<Vec<u8>, _>(LinuxErrno::IsDirectory),
            inode != ROOT_INODE && inode != TRANSLATOR_INODE ==> result == Err::<Vec<u8>, _>(
                LinuxErrno::NoEntry,
            ),
            inode == TRANSLATOR_INODE && !self.handles.is_open(handle, HandleKind::File) ==> result
                == Err::<Vec<u8>, _>(LinuxErrno::BadHandle),
            inode == TRANSLATOR_INODE && self.handles.is_open(handle, HandleKind::File) ==> {
                let snapshot = self.config.snapshot@;
                if offset > usize::MAX {
                    result == Err::<Vec<u8>, _>(LinuxErrno::InvalidArgument)
                } else if offset >= snapshot.len() {
                    result matches Ok(data) && data@.len() == 0
                } else {
                    let end = if offset + size < snapshot.len() {
                        offset + size
                    } else {
                        snapshot.len() as int
                    };
                    result matches Ok(data) && data@ == snapshot.subrange(offset as int, end)
                }
            },
    {
        if inode != TRANSLATOR_INODE {
            return Err(
                if inode == ROOT_INODE {
                    LinuxErrno::IsDirectory
                } else {
                    LinuxErrno::NoEntry
                },
            );
        }
        match self.handles.check_handle(handle, HandleKind::File) {
            Ok(()) => {},
            Err(error) => return Err(error),
        }
        if offset > usize::MAX as u64 {
            return Err(LinuxErrno::InvalidArgument);
        }
        let start: usize = offset as usize;
        if start >= self.config.snapshot.len() {
            return Ok(Vec::new());
        }
        let left: usize = self.config.snapshot.len() - start;
        let count: usize = if (size as u64) < left as u64 {
            size as usize
        } else {
            left
        };
        let mut data: Vec<u8> = Vec::new();
        let mut i: usize = 0;
        while i < count
            invariant
                i <= count,
                start + count <= self.config.snapshot.len(),
                data@ == self.config.snapshot@.subrange(start as int, start + i),
            decreases count - i,
        {
            data.push(self.config.snapshot[start + i]);
            assert(data@ == self.config.snapshot@.subrange(start as int, start + i + 1));
            i = i + 1;
        }
        Ok(data)
    }

    /// Closes a file handle.
    pub fn release(&mut self, inode: u64, handle: u64) -> (result: Result<(), LinuxErrno>)
        requires
            old(self).wf(),
        ensures
            final(self).wf(),
            final(self).config == old(self).config,
            result == if inode == TRANSLATOR_INODE && old(self).handles.is_open(
                handle,
                HandleKind::File,
            ) {
                Ok::<(), LinuxErrno>(())
            } else {
                Err(LinuxErrno::BadHandle)
            },
            result is Err ==> *final(self) == *old(self),
            result is Ok ==> final(self).handles.active@ == old(self).handles.active@.remove(handle)
                && final(self).handles.next == old(self).handles.next && final(self).handles.limit
                == old(self).handles.limit && !final(self).handles.destroyed,
    {
        if inode != TRANSLATOR_INODE {
            return Err(LinuxErrno::BadHandle);
        }
        self.handles.release_handle(handle, HandleKind::File)
    }

    /// Opens the directory.
    pub fn opendir(&mut self, inode: u64, flags: u32) -> (result: Result<u64, LinuxErrno>)
        requires
            old(self).wf(),
        ensures
            final(self).wf(),
            final(self).config == old(self).config,
            result == if inode == TRANSLATOR_INODE {
                Err::<u64, LinuxErrno>(LinuxErrno::NotDirectory)
            } else if inode != ROOT_INODE {
                Err(LinuxErrno::NoEntry)
            } else if wants_to_write(flags) {
                Err(LinuxErrno::ReadOnlyFileSystem)
            } else {
                old(self).handles.allocation()
            },
            result is Err ==> *final(self) == *old(self),
            result matches Ok(handle) ==> final(self).handles.active@ == old(
                self,
            ).handles.active@.insert(handle, HandleKind::Directory) && final(self).handles.next
                == old(self).handles.next + 1 && final(self).handles.limit == old(
                self,
            ).handles.limit && !final(self).handles.destroyed,
    {
        if inode != ROOT_INODE {
            return Err(
                if inode == TRANSLATOR_INODE {
                    LinuxErrno::NotDirectory
                } else {
                    LinuxErrno::NoEntry
                },
            );
        }
        if write_requested(flags) {
            return Err(LinuxErrno::ReadOnlyFileSystem);
        }
        self.handles.allocate_handle(HandleKind::Directory)
    }

    /// The directory's entries from `offset` on: itself, its parent, and the translator.
    pub fn readdir(&self, inode: u64, handle: u64, offset: u64) -> (result: Result<
        Vec<DirEntry>,
        LinuxErrno,
    >)
        ensures
            inode != ROOT_INODE ==> result == Err::<Vec<DirEntry>, _>(LinuxErrno::NotDirectory),
            inode == ROOT_INODE && !self.handles.is_open(handle, HandleKind::Directory) ==> result
                == Err::<Vec<DirEntry>, _>(LinuxErrno::BadHandle),
            inode == ROOT_INODE && self.handles.is_open(handle, HandleKind::Directory) ==> {
                &&& result matches Ok(entries)
                &&& entries@.len() == if offset < 3 {
                    3 - offset
                } else {
                    0
                }
                &&& forall|i: int|
                    0 <= i < entries@.len() ==> {
                        let index = offset + i;
                        let entry = #[trigger] entries@[i];
                        &&& entry.offset == index + 1
                        &&& index == 0 ==> entry.ino == ROOT_INODE && entry.kind == LINUX_DT_DIR
                            && entry.name@ == seq![0x2eu8]
                        &&& index == 1 ==> entry.ino == ROOT_INODE && entry.kind == LINUX_DT_DIR
                            && entry.name@ == seq![0x2eu8, 0x2eu8]
                        &&& index == 2 ==> entry.ino == TRANSLATOR_INODE && entry.kind
                            == LINUX_DT_REG && entry.name@ == translator_name()
                    }
            },
    {
        if inode != ROOT_INODE {
            return Err(LinuxErrno::NotDirectory);
        }
        match self.handles.check_handle(handle, HandleKind::Directory) {
            Ok(()) => {},
            Err(error) => return Err(error),
        }
        let mut entries: Vec<DirEntry> = Vec::new();
        if offset <= 0 {
            entries.push(
                DirEntry {
                    ino: ROOT_INODE,
                    offset: 1,
                    kind: LINUX_DT_DIR,
                    name: vec![0x2eu8],
                },
            );
        }
        if offset <= 1 {
            entries.push(
                DirEntry {
                    ino: ROOT_INODE,
                    offset: 2,
                    kind: LINUX_DT_DIR,
                    name: vec![0x2eu8, 0x2eu8],
                },
            );
        }
        if offset <= 2 {
            entries.push(
                DirEntry {
                    ino: TRANSLATOR_INODE,
                    offset: 3,
                    kind: LINUX_DT_REG,
                    name: translator_bytes(),
                },
            );
        }
        Ok(entries)
    }

    /// Closes a directory handle.
    pub fn releasedir(&mut self, inode: u64, handle: u64) -> (result: Result<(), LinuxErrno>)
        requires
            old(self).wf(),
        ensures
            final(self).wf(),
            final(self).config == old(self).config,
            result == if inode == ROOT_INODE && old(self).handles.is_open(
                handle,
                HandleKind::Directory,
            ) {
                Ok::<(), LinuxErrno>(())
            } else {
                Err(LinuxErrno::BadHandle)
            },
            result is Err ==> *final(self) == *old(self),
            result is Ok ==> final(self).handles.active@ == old(self).handles.active@.remove(handle)
                && final(self).handles.next == old(self).handles.next && final(self).handles.limit
                == old(self).handles.limit && !final(self).handles.destroyed,
    {
        if inode != ROOT_INODE {
            return Err(LinuxErrno::BadHandle);
        }
        self.handles.release_handle(handle, HandleKind::Directory)
    }

    /// Whether an inode may be accessed in the way asked for: writing never.
    pub fn access(&self, inode: u64, mask: u32) -> (result: Result<(), LinuxErrno>)
        ensures
            result == if self.entry_of(inode) is Err {
                Err::<(), LinuxErrno>(LinuxErrno::NoEntry)
            } else if mask & LINUX_W_OK != 0 {
                Err(LinuxErrno::ReadOnlyFileSystem)
            } else {
                Ok(())
            },
    {
        match self.entry(inode) {
            Ok(_) => {},
            Err(error) => return Err(error),
        }
        if mask & LINUX_W_OK != 0 {
            Err(LinuxErrno::ReadOnlyFileSystem)
        } else {
            Ok(())
        }
    }

    pub fn statfs(&self, inode: u64) -> (result: Result<FsStatistics, LinuxErrno>)
        ensures
            result == if self.entry_of(inode) is Err {
                Err::<FsStatistics, LinuxErrno>(LinuxErrno::NoEntry)
            } else {
                Ok(
                    (FsStatistics {
                        block_size: 4096,
                        fragment_size: 4096,
                        files: 2,
                        name_max: 255,
                        read_only: true,
                    }),
                )
            },
    {
        match self.entry(inode) {
            Ok(_) => {},
            Err(error) => return Err(error),
        }
        Ok(
            FsStatistics {
                block_size: 4096,
                fragment_size: 4096,
                files: 2,
                name_max: 255,
                read_only: true,
            },
        )
    }

    /// What a device request on an open translator is answered.
    pub open spec fn ioctl_answer(self, flags: u32, cmd: u32, in_size: u32, out_size: u32) -> Option<
        (i32, Seq<u8>),
    > {
        if flags != 0 || in_size != 0 {
            None
        } else if cmd >> 8 == 0x80_4561 {
            if out_size > CAPTURED_RESPONSE_SIZE {
                None
            } else {
                Some((self.config.captured_result, self.config.captured_response@.take(out_size as int)))
            }
        } else if cmd == 0x8080_6123 && out_size == 128 {
            Some((0, Seq::new(128, |i: int| 1u8)))
        } else if cmd == 0x6124 && out_size == 0 {
            Some((0, seq![]))
        } else {
            None
        }
    }

    pub fn ioctl(
        &self,
        inode: u64,
        handle: u64,
        flags: u32,
        cmd: u32,
        in_size: u32,
        out_size: u32,
    ) -> (result: Result<IoctlReply, LinuxErrno>)
        requires
            self.wf(),
        ensures
            inode != TRANSLATOR_INODE || !self.handles.is_open(handle, HandleKind::File) ==> result
                == Err::<IoctlReply, _>(LinuxErrno::BadHandle),
            inode == TRANSLATOR_INODE && self.handles.is_open(handle, HandleKind::File)
                ==> match self.ioctl_answer(flags, cmd, in_size, out_size) {
                None => result == Err::<IoctlReply, _>(LinuxErrno::NotTerminal),
                Some((code, data)) => result matches Ok(reply) && reply.result == code
                    && reply.data@ == data,
            },
    {
        if inode != TRANSLATOR_INODE || self.handles.check_handle(handle, HandleKind::File).is_err() {
            return Err(LinuxErrno::BadHandle);
        }
        if flags != 0 || in_size != 0 {
            return Err(LinuxErrno::NotTerminal);
        }
        if cmd >> 8 == 0x80_4561 {
            if out_size as usize > CAPTURED_RESPONSE_SIZE {
                return Err(LinuxErrno::NotTerminal);
            }
            let count: usize = out_size as usize;
            let mut data: Vec<u8> = Vec::new();
            let mut i: usize = 0;
            while i < count
                invariant
                    i <= count,
                    count <= CAPTURED_RESPONSE_SIZE,
                    self.config.captured_response@.len() == CAPTURED_RESPONSE_SIZE,
                    data@ == self.config.captured_response@.take(i as int),
                decreases count - i,
            {
                data.push(self.config.captured_response[i]);
                assert(data@ == self.config.captured_response@.take(i + 1));
                i = i + 1;
            }
            return Ok(IoctlReply { result: self.config.captured_result, data });
        }
        if cmd == 0x8080_6123 && out_size == 128 {
            let mut data: Vec<u8> = Vec::new();
            let mut i: usize = 0;
            while i < 128
                invariant
                    i <= 128,
                    data@.len() == i,
                    forall|k: int| 0 <= k < i ==> data@[k] == 1u8,
                decreases 128 - i,
            {
                data.push(1u8);
                i = i + 1;
            }
            assert(data@ == Seq::new(128, |i: int| 1u8));
            return Ok(IoctlReply { result: 0, data });
        }
        if cmd == 0x6124 && out_size == 0 {
            let data: Vec<u8> = Vec::new();
            assert(data@ == Seq::<u8>::empty());
            return Ok(IoctlReply { result: 0, data });
        }
        Err(LinuxErrno::NotTerminal)
    }

    /// The error of a request that is always turned down: nothing can be changed, there
    /// are no extended attributes, and nothing can be mapped.
    pub fn refuse(request: RefusedRequest) -> (result: LinuxErrno)
        ensures
            result == match request {
                RefusedRequest::Getxattr => LinuxErrno::NoData,
                RefusedRequest::Setupmapping | RefusedRequest::Removemapping =>
                    LinuxErrno::NotImplemented,
                _ => LinuxErrno::ReadOnlyFileSystem,
            },
    {
        match request {
            RefusedRequest::Getxattr => LinuxErrno::NoData,
            RefusedRequest::Setupmapping | RefusedRequest::Removemapping =>
                LinuxErrno::NotImplemented,
            _ => LinuxErrno::ReadOnlyFileSystem,
        }
    }

    pub fn listxattr(size: u32) -> (result: ListxattrReply)
        ensures
            result == if size == 0 {
                ListxattrReply::Count(0)
            } else {
                ListxattrReply::NoNames
            },
    {
        if size == 0 {
            ListxattrReply::Count(0)
        } else {
            ListxattrReply::NoNames
        }
    }
}

/// The name of the translator.
pub open spec fn translator_name() -> Seq<u8> {
    seq![0x72u8, 0x6fu8, 0x73u8, 0x65u8, 0x74u8, 0x74u8, 0x61u8]
}

fn translator_bytes() -> (result: Vec<u8>)
    ensures
        result@ == translator_name(),
{
    vec![0x72u8, 0x6fu8, 0x73u8, 0x65u8, 0x74u8, 0x74u8, 0x61u8]
}

/// A handle that is handed out was never handed out before, and one that was released
/// is not handed out again.
pub proof fn law_handles_are_not_reused(before: HandleTable, after: HandleTable, handle: u64)
    requires
        before.wf(),
        before.allocation() == Ok::<u64, LinuxErrno>(handle),
        after.next == before.next + 1,
    ensures
        !before.active@.contains_key(handle),
        forall|later: HandleTable|
            later.next >= after.next && #[trigger] later.allocation() is Ok ==> later.allocation()
                != Ok::<u64, LinuxErrno>(handle),
{
}

/// After the file system was destroyed nothing is open and nothing can be opened.
pub proof fn law_destroyed_is_fenced(handles: HandleTable, handle: u64, kind: HandleKind)
    requires
        handles.destroyed,
    ensures
        !handles.is_open(handle, kind),
        handles.allocation() == Err::<u64, LinuxErrno>(LinuxErrno::BadHandle),
{
}

} // verus!

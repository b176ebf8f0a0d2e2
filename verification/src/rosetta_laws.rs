//! What the translator's file system shows, and what its translator is taken from.
use crate::rosetta::{
    attributes, profile_valid, translator_name, wants_to_write, HandleKind, HandleTable,
    ImmutableRosettaFs, LinuxErrno, RosettaError,
};
use crate::snapshot::{
    is_filler, is_parent, is_translator, named_parts, path_parts, FileIdentity, ReadReply,
    SnapshotPhase, SnapshotReply, SnapshotRun, SnapshotStep,
};
use vstd::prelude::*;
use vstd::utf8::valid_utf8;

verus! {

/// The guest's error numbers.
pub proof fn law_error_numbers_are_the_guests()
    ensures
        LinuxErrno::NoEntry.number() == 2,
        LinuxErrno::BadHandle.number() == 9,
        LinuxErrno::NotDirectory.number() == 20,
        LinuxErrno::IsDirectory.number() == 21,
        LinuxErrno::InvalidArgument.number() == 22,
        LinuxErrno::TooManyOpenFiles.number() == 24,
        LinuxErrno::NotTerminal.number() == 25,
        LinuxErrno::ReadOnlyFileSystem.number() == 30,
        LinuxErrno::NotImplemented.number() == 38,
        LinuxErrno::NoData.number() == 61,
{
}

/// Flags ask to write exactly if the two bits of the access mode say more than reading, or the
/// bit for truncation is set; no other bit counts.
pub proof fn law_only_access_and_truncation_ask_to_write(rest: u32, truncate: u32, access: u32)
    requires
        rest & 0x203 == 0,
        truncate < 2,
        access < 4,
    ensures
        wants_to_write(rest | (truncate << 9) | access) <==> truncate == 1 || access != 0,
{
    let flags = rest | (truncate << 9) | access;
    assert((flags & 0b11 != 0 <==> access != 0) && (flags & 0x200 != 0 <==> truncate == 1))
        by (bit_vector)
        requires
            flags == (rest | (truncate << 9) | access),
            rest & 0x203 == 0,
            truncate < 2,
            access < 4,
    ;
}

/// The root is a directory and the translator a regular file, both for everybody to read and
/// execute and for nobody to write; the blocks of 512 bytes are as many as the size needs.
pub proof fn law_attributes_show_what_is_there(inode: u64, size: u64)
    ensures
        attributes(inode, size).ino == inode,
        attributes(inode, size).size == size,
        attributes(inode, size).mode == if inode == 1 {
            0x4000 + 0x16d
        } else {
            0x8000 + 0x16d
        },
        attributes(inode, size).nlink == if inode == 1 {
            2u32
        } else {
            1u32
        },
        size <= attributes(inode, size).blocks * 512 < size + 512,
        attributes(inode, size).blksize == 4096,
{
}

/// There is the root and there is the translator, with the size of its snapshot, and nothing
/// else.
pub proof fn law_there_are_two_inodes(fs: ImmutableRosettaFs, inode: u64)
    ensures
        fs.entry_of(inode) is Ok <==> inode == 1 || inode == 2,
        fs.entry_of(inode) is Err ==> fs.entry_of(inode)->Err_0 == LinuxErrno::NoEntry,
        fs.entry_of(inode) matches Ok(entry) ==> entry.inode == inode && entry.attr.ino == inode
            && entry.attr.size == if inode == 2 {
            fs.config.snapshot@.len()
        } else {
            0
        },
        translator_name() == seq!['r' as u8, 'o' as u8, 's' as u8, 'e' as u8, 't' as u8, 't' as u8,
            'a' as u8],
{
    assert(fs.config.snapshot.len() <= u64::MAX);
}

/// A handle is handed out as long as there is room and a number, and never one that is open.
pub proof fn law_handles_are_handed_out_while_there_is_room(handles: HandleTable)
    requires
        handles.wf(),
    ensures
        handles.allocation() is Ok <==> !handles.destroyed && handles.active@.len() < handles.limit
            && handles.next < u64::MAX,
        handles.allocation() matches Ok(handle) ==> !handles.active@.contains_key(handle) && forall|
            open: u64,
        | #[trigger] handles.active@.contains_key(open) ==> open < handle,
        handles.destroyed ==> handles.allocation() == Err::<u64, LinuxErrno>(
            LinuxErrno::BadHandle,
        ),
        !handles.destroyed && handles.active@.len() >= handles.limit ==> handles.allocation()
            == Err::<u64, LinuxErrno>(LinuxErrno::TooManyOpenFiles),
{
}

/// An open handle is one of the table, of the kind that it was opened as.
pub proof fn law_open_handles_have_one_kind(handles: HandleTable, handle: u64)
    ensures
        !(handles.is_open(handle, HandleKind::File) && handles.is_open(
            handle,
            HandleKind::Directory,
        )),
        handles.is_open(handle, HandleKind::File) || handles.is_open(handle, HandleKind::Directory)
            <==> !handles.destroyed && handles.active@.contains_key(handle),
{
}

/// The compatibility request, whatever the length in its number, is answered with as much of the
/// captured response as was asked for. The two other requests that the translator makes are
/// answered as it expects, and nothing else is answered.
pub proof fn law_device_requests(
    fs: ImmutableRosettaFs,
    flags: u32,
    cmd: u32,
    low: u32,
    in_size: u32,
    out_size: u32,
    i: int,
)
    requires
        fs.config.wf(),
        low < 256,
    ensures
        flags != 0 || in_size != 0 ==> fs.ioctl_answer(flags, cmd, in_size, out_size) is None,
        out_size <= 1024 ==> (fs.ioctl_answer(0, (0x80_4561u32 << 8) | low, 0, out_size)
            matches Some((result, data)) && result == fs.config.captured_result && data.len()
            == out_size && (0 <= i < out_size ==> data[i] == fs.config.captured_response@[i])),
        out_size > 1024 ==> fs.ioctl_answer(0, (0x80_4561u32 << 8) | low, 0, out_size) is None,
        fs.ioctl_answer(0, 0x8080_6123, 0, 128) matches Some((result, data)) && result == 0
            && data.len() == 128 && (0 <= i < 128 ==> data[i] == 1),
        fs.ioctl_answer(0, 0x6124, 0, 0) matches Some((result, data)) && result == 0 && data.len()
            == 0,
        out_size != 128 ==> fs.ioctl_answer(0, 0x8080_6123, 0, out_size) is None,
        out_size != 0 ==> fs.ioctl_answer(0, 0x6124, 0, out_size) is None,
        cmd >> 8 != 0x80_4561 && cmd != 0x8080_6123 && cmd != 0x6124 ==> fs.ioctl_answer(
            flags,
            cmd,
            in_size,
            out_size,
        ) is None,
{
    assert(((0x80_4561u32 << 8) | low) >> 8 == 0x80_4561u32 && 0x8080_6123u32 >> 8 != 0x80_4561
        && 0x6124u32 >> 8 != 0x80_4561) by (bit_vector)
        requires
            low < 256,
    ;
}

/// A translator is a regular file that somebody may execute, of at most 128 mebibytes.
pub proof fn law_translators_are_executable_files(
    file: FileIdentity,
    kind: u16,
    permissions: u16,
)
    requires
        kind < 16,
        permissions < 0x1000,
        file.mode == (kind << 12) | permissions,
    ensures
        is_translator(file) <==> kind == 8 && permissions & 0o111u16 != 0 && 0 <= file.size
            <= 0x800_0000,
{
    let mode = file.mode;
    assert((mode & 0xf000 == 0x8000 <==> kind == 8) && (mode & 0x49 != 0 <==> permissions
        & 0o111u16 != 0)) by (bit_vector)
        requires
            kind < 16,
            permissions < 0x1000,
            mode == (kind << 12) | permissions,
    ;
}

/// The parts with a slash between each two.
pub open spec fn with_slashes(parts: Seq<Seq<u8>>) -> Seq<u8>
    decreases parts.len(),
{
    if parts.len() == 0 {
        Seq::empty()
    } else if parts.len() == 1 {
        parts[0]
    } else {
        with_slashes(parts.drop_last()).push(0x2f) + parts.last()
    }
}

/// A path is its parts with slashes between them, and no part has a slash.
pub proof fn law_paths_are_split_at_their_slashes(path: Seq<u8>, i: int)
    ensures
        path_parts(path).len() > 0,
        with_slashes(path_parts(path)) == path,
        0 <= i < path_parts(path).len() ==> !path_parts(path)[i].contains(0x2f),
    decreases path.len(),
{
    if path.len() > 0 {
        let rest = path.drop_last();
        let before = path_parts(rest);
        let parts = path_parts(path);
        let last = path.last();
        law_paths_are_split_at_their_slashes(rest, i);
        law_paths_are_split_at_their_slashes(rest, before.len() - 1);
        assert(rest.push(last) =~= path);
        if last == 0x2f {
            assert(parts.drop_last() =~= before);
            assert(with_slashes(parts) =~= path);
        } else {
            assert(parts.drop_last() =~= before.drop_last());
            assert(with_slashes(parts) =~= with_slashes(before).push(last));
            let own = before.last().push(last);
            if own.contains(0x2f) {
                let k = choose|k: int| 0 <= k < own.len() && own[k] == 0x2f;
                assert(before.last()[k] == 0x2f);
                assert(before.last().contains(0x2f));
            }
        }
    } else {
        assert(path_parts(path) =~= seq![Seq::<u8>::empty()]);
        assert(with_slashes(path_parts(path)) =~= path);
    }
}

/// The parts that name something are those that are neither empty nor a single dot.
pub proof fn law_named_parts_name_something(parts: Seq<Seq<u8>>, part: Seq<u8>)
    ensures
        named_parts(parts).contains(part) <==> parts.contains(part) && part.len() != 0 && part
            != seq![0x2eu8],
        named_parts(parts).len() <= parts.len(),
        is_filler(part) <==> part.len() == 0 || part == seq![0x2eu8],
        is_parent(part) <==> part == seq![0x2eu8, 0x2eu8],
    decreases parts.len(),
{
    if parts.len() > 0 {
        let rest = parts.drop_last();
        law_named_parts_name_something(rest, part);
        let some = named_parts(rest);
        let all = named_parts(parts);
        assert(parts[parts.len() - 1] == parts.last());
        if parts.contains(part) && part != parts.last() {
            let k = choose|k: int| 0 <= k < parts.len() && parts[k] == part;
            assert(rest[k] == part);
        }
        if rest.contains(part) {
            let k = choose|k: int| 0 <= k < rest.len() && rest[k] == part;
            assert(parts[k] == part);
        }
        if some.contains(part) {
            let k = choose|k: int| 0 <= k < some.len() && some[k] == part;
            assert(all[k] == part);
        }
        if !is_filler(parts.last()) {
            assert(all[some.len() as int] == parts.last());
            if all.contains(part) && part != parts.last() {
                let k = choose|k: int| 0 <= k < all.len() && all[k] == part;
                assert(some[k] == part);
            }
        }
    }
}

/// The way to the directory goes down part by part and never up. A part that leads up is refused
/// before it is opened, and a path that leads nowhere is refused, too.
pub proof fn law_the_way_never_leads_up(run: SnapshotRun, index: int)
    requires
        0 <= index <= run.components@.len(),
    ensures
        match run.at_component(index) {
            SnapshotPhase::Component(at) => at == index && index < run.components@.len()
                && run.components@[index]@ != seq![0x2eu8, 0x2eu8],
            SnapshotPhase::Directory => index == run.components@.len() && index > 0,
            SnapshotPhase::Failed(RosettaError::RootOfFileSystem) => run.components@.len() == 0,
            SnapshotPhase::Failed(RosettaError::InvalidComponent) => index < run.components@.len()
                && run.components@[index]@ == seq![0x2eu8, 0x2eu8],
            _ => false,
        },
{
    assert(run.components.len() <= usize::MAX);
}

/// The translator is read from where the last read ended to its end, and a file that ends before
/// its size is refused; whatever the host refuses ends the snapshot with that.
pub proof fn law_translators_are_read_to_their_end(
    run: SnapshotRun,
    directory: FileIdentity,
    file: FileIdentity,
    offset: usize,
    count: usize,
    error: i32,
)
    requires
        run.phase == (SnapshotPhase::Reading { directory, file, offset }),
        is_translator(file),
        offset < file.size,
        count <= file.size - offset,
    ensures
        run.step_spec() matches SnapshotStep::Read { offset: from, len } && from == offset && from
            + len == file.size,
        0 < count < file.size - offset ==> run.phase_after(
            SnapshotReply::Read(ReadReply::Read(count)),
        ) == (SnapshotPhase::Reading { directory, file, offset: (offset + count) as usize }),
        count == file.size - offset ==> run.phase_after(SnapshotReply::Read(ReadReply::Read(count)))
            == (SnapshotPhase::TranslatorRead { directory, file }),
        run.phase_after(SnapshotReply::Read(ReadReply::Read(0))) == SnapshotPhase::Failed(
            RosettaError::UnexpectedEof,
        ),
        run.phase_after(SnapshotReply::Read(ReadReply::Interrupted)) == run.phase,
        run.phase_after(SnapshotReply::Read(ReadReply::Failed(error))) == SnapshotPhase::Failed(
            RosettaError::Host(error),
        ),
        run.phase_after(SnapshotReply::Refused(error)) == SnapshotPhase::Failed(
            RosettaError::Host(error),
        ),
{
}

/// Whatever is not what it was when it was first looked at is refused: an open file that is
/// another now, and a name that stands for another file.
pub proof fn law_changed_sources_are_refused(
    run: SnapshotRun,
    directory: FileIdentity,
    file: FileIdentity,
    opened: FileIdentity,
    named: FileIdentity,
)
    ensures
        ({
            let reply = SnapshotReply::Compared { opened, named };
            let refused = SnapshotPhase::Failed(RosettaError::SourceChanged);
            let at = |phase: SnapshotPhase| SnapshotRun { phase, ..run };
            &&& opened != directory || named != directory ==> {
                &&& at(SnapshotPhase::DirectoryOpened { directory }).phase_after(reply) == refused
                &&& at(SnapshotPhase::TranslatorChecked { directory, file }).phase_after(reply)
                    == refused
            }
            &&& opened != file || named != file ==> {
                &&& at(SnapshotPhase::TranslatorOpened { directory, file }).phase_after(reply)
                    == refused
                &&& at(SnapshotPhase::TranslatorRead { directory, file }).phase_after(reply)
                    == refused
            }
            &&& opened != named ==> at(SnapshotPhase::Component(0)).phase_after(reply)
                == SnapshotPhase::Failed(RosettaError::RootChanged)
        }),
{
}

/// A profile is taken exactly if its path is absolute text without a zero, of at most 4096 bytes,
/// its digest has 32 bytes, its response 1024, and its result is no error.
pub proof fn law_profiles_are_checked(
    root: Seq<u8>,
    digest: Seq<u8>,
    result: i32,
    response: Seq<u8>,
    at: int,
)
    ensures
        profile_valid(root, digest, result, response) ==> {
            &&& 1 <= root.len() <= 4096 && root[0] == 0x2f && valid_utf8(root)
            &&& 0 <= at < root.len() ==> root[at] != 0
            &&& digest.len() == 32 && response.len() == 1024 && 0 <= result
        },
        1 <= root.len() <= 4096 && root[0] == 0x2f && valid_utf8(root) && !root.contains(0)
            && digest.len() == 32 && response.len() == 1024 && 0 <= result ==> profile_valid(
            root,
            digest,
            result,
            response,
        ),
{
}

/// The directory is checked before the translator is opened and again at the end; the translator
/// is checked before it is read and again behind it. What is read is the rest of the file.
pub proof fn law_snapshot_is_checked_on_both_sides(
    run: SnapshotRun,
    directory: FileIdentity,
    file: FileIdentity,
    offset: usize,
    index: usize,
)
    requires
        offset <= file.size <= usize::MAX,
    ensures
        ({
            let asks = |phase: SnapshotPhase| (SnapshotRun { phase, ..run }).step_spec();
            &&& asks(SnapshotPhase::Base) == SnapshotStep::OpenBase
            &&& asks(SnapshotPhase::Component(index)) == SnapshotStep::OpenComponent(index)
            &&& asks(SnapshotPhase::Directory) == SnapshotStep::LookAtDirectory
            &&& asks(SnapshotPhase::DirectoryOpened { directory }) == SnapshotStep::CheckDirectory
            &&& asks(SnapshotPhase::Translator { directory }) == SnapshotStep::OpenTranslator
            &&& asks(SnapshotPhase::TranslatorOpened { directory, file })
                == SnapshotStep::CheckTranslator
            &&& asks(SnapshotPhase::Reading { directory, file, offset }) matches SnapshotStep::Read {
                offset: from,
                len,
            }
            &&& from == offset && from + len == file.size
            &&& asks(SnapshotPhase::TranslatorRead { directory, file })
                == SnapshotStep::CheckTranslator
            &&& asks(SnapshotPhase::TranslatorChecked { directory, file })
                == SnapshotStep::CheckDirectory
        }),
{
}

/// Every entry is of the first generation and has no flags.
pub proof fn law_entries_are_of_the_first_generation(fs: ImmutableRosettaFs, inode: u64)
    ensures
        fs.entry_of(inode) matches Ok(entry) ==> entry.generation == 1 && entry.attr_flags == 0,
{
}

/// The directory that is found is the one that is checked from there on, and whatever the host
/// refuses ends the run with its error.
pub proof fn law_found_directory_is_the_one_checked(
    run: SnapshotRun,
    directory: FileIdentity,
    error: i32,
)
    ensures
        run.phase == SnapshotPhase::Directory ==> run.phase_after(SnapshotReply::Found(directory))
            == (SnapshotPhase::DirectoryOpened { directory }),
        run.phase_after(SnapshotReply::Refused(error)) == SnapshotPhase::Failed(
            RosettaError::Host(error),
        ),
{
}

} // verus!

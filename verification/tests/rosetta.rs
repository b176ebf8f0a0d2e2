use vmm_core::rosetta::{
    ImmutableRosettaFs, IoctlReply, LinuxErrno, ListxattrReply, RefusedRequest, RosettaError,
    RosettaFsConfig, RosettaProfile, TranslatorSource, LINUX_W_OK,
};
use vmm_core::snapshot::{
    judge_component, judge_translator, named_components, verify_current, FileIdentity, ReadReply,
    SnapshotReply, SnapshotRun, SnapshotStep, MAX_TRANSLATOR_SIZE,
};

const O_RDONLY: u32 = 0;
const O_WRONLY: u32 = 1;
const O_TRUNC: u32 = 0o1000;
const O_APPEND: u32 = 0o2000;
const O_CLOEXEC: u32 = 0o2000000;

fn config(snapshot: &[u8], captured_result: i32) -> RosettaFsConfig {
    RosettaFsConfig {
        profile: RosettaProfile::CapturedCompatibilityV1,
        snapshot: snapshot.to_vec(),
        captured_result,
        captured_response: (0..1024).map(|index| index as u8).collect(),
    }
}

#[test]
fn immutable_namespace_uses_checked_non_reused_handles() {
    let mut fs = ImmutableRosettaFs::new(config(b"bytes", 0));
    let translator = b"rosetta".to_vec();
    let unknown = b"companion".to_vec();
    let dotdot = b"..".to_vec();
    assert_eq!(fs.lookup(1, &translator).unwrap().inode, 2);
    assert_eq!(fs.lookup(1, &unknown).unwrap_err().raw_os_error(), 2);
    assert_eq!(fs.lookup(1, &dotdot).unwrap_err().raw_os_error(), 2);

    let first = fs.open(2, O_RDONLY).unwrap();
    fs.release(2, first).unwrap();
    assert_eq!(fs.release(2, first).unwrap_err().raw_os_error(), 9);
    let second = fs.open(2, O_RDONLY).unwrap();
    assert_ne!(first, second);
    assert_eq!(fs.open(2, O_WRONLY).unwrap_err().raw_os_error(), 30);

    assert_eq!(fs.read(2, second, 3, 1).unwrap(), b"yte");

    let directory = fs.opendir(1, O_RDONLY).unwrap();
    let names: Vec<Vec<u8>> = fs
        .readdir(1, directory, 0)
        .unwrap()
        .into_iter()
        .map(|entry| entry.name)
        .collect();
    assert_eq!(names, [b".".to_vec(), b"..".to_vec(), b"rosetta".to_vec()]);
    fs.releasedir(1, directory).unwrap();
    assert_eq!(
        fs.readdir(1, directory, 0).unwrap_err().raw_os_error(),
        9
    );
    assert_eq!(fs.access(2, LINUX_W_OK).unwrap_err().raw_os_error(), 30);
    assert!(fs.statfs(1).unwrap().read_only);
}

#[test]
fn real_server_validates_raw_linux_open_flags() {
    let mut fs = ImmutableRosettaFs::new(config(b"bytes", 0));
    assert!(fs.open(2, O_RDONLY | O_CLOEXEC).is_ok());
    assert!(fs.open(2, O_RDONLY | O_APPEND).is_ok());
    assert_eq!(
        fs.open(2, O_RDONLY | O_TRUNC).unwrap_err().raw_os_error(),
        30
    );
    assert!(fs.opendir(1, O_RDONLY | O_CLOEXEC).is_ok());
    assert_eq!(
        fs.opendir(1, O_RDONLY | O_TRUNC)
            .unwrap_err()
            .raw_os_error(),
        30
    );
}

#[test]
fn handle_limit_is_bounded_and_recovers_without_reusing_ids() {
    let mut fs = ImmutableRosettaFs::with_handle_limit(config(b"bytes", 0), 2);
    let first = fs.open(2, O_RDONLY).unwrap();
    let directory = fs.opendir(1, O_RDONLY).unwrap();
    assert_eq!(fs.open(2, O_RDONLY).unwrap_err().raw_os_error(), 24);

    fs.releasedir(1, directory).unwrap();
    let recovered = fs.open(2, O_RDONLY).unwrap();
    assert!(recovered > directory);
    assert_ne!(recovered, first);
}

#[test]
fn real_server_destroy_clears_and_fences_handles() {
    let mut fs = ImmutableRosettaFs::with_handle_limit(config(b"bytes", 0), 2);
    let handle = fs.open(2, O_RDONLY).unwrap();
    fs.destroy();
    assert_eq!(fs.read(2, handle, 1, 0).unwrap_err().raw_os_error(), 9);
    assert_eq!(
        fs.ioctl(2, handle, 0, 0x80456122, 0, 0)
            .unwrap_err()
            .raw_os_error(),
        9
    );
    assert_eq!(fs.open(2, O_RDONLY).unwrap_err().raw_os_error(), 9);

    let mut fresh = ImmutableRosettaFs::with_handle_limit(config(b"bytes", 0), 2);
    assert_eq!(fresh.open(2, O_RDONLY), Ok(1));
}

fn dispatch(
    result: i32,
    flags: u32,
    cmd: u32,
    in_size: u32,
    out_size: u32,
) -> Result<IoctlReply, LinuxErrno> {
    let mut fs = ImmutableRosettaFs::new(config(b"bytes", result));
    let handle = fs.open(2, O_RDONLY).unwrap();
    fs.ioctl(2, handle, flags, cmd, in_size, out_size)
}

#[test]
fn real_server_preserves_status_prefix_unique_and_bounds() {
    for result in [0, 1] {
        for (cmd, size) in [
            (0x80456122, 0),
            (0x80456125, 1),
            (0x804561ab, 68),
            (0x80456122, 69),
            (0x80456125, 70),
            (0x804561ab, 1023),
            (0x80456122, 1024),
        ] {
            let reply = dispatch(result, 0, cmd, 0, size).unwrap();
            assert_eq!(reply.result, result);
            assert_eq!(
                reply.data,
                (0..size).map(|index| index as u8).collect::<Vec<_>>()
            );
        }
    }

    assert_eq!(
        dispatch(0, 0, 0x80456122, 0, 1025)
            .unwrap_err()
            .raw_os_error(),
        25
    );
    let mut fs = ImmutableRosettaFs::new(config(b"bytes", 0));
    let handle = fs.open(2, O_RDONLY).unwrap();
    assert_eq!(
        fs.ioctl(2, handle + 1, 0, 0x80456122, 0, 0)
            .unwrap_err()
            .raw_os_error(),
        9
    );
}

#[test]
fn real_server_enforces_profile_forms_and_isolates_exit_ioctl() {
    let ones = dispatch(7, 0, 0x80806123, 0, 128).unwrap();
    assert_eq!(ones.result, 0);
    assert_eq!(ones.data, vec![1; 128]);

    let empty = dispatch(7, 0, 0x6124, 0, 0).unwrap();
    assert_eq!(empty.result, 0);
    assert!(empty.data.is_empty());

    for (flags, cmd, input, output) in [
        (1, 0x80456122, 0, 0),
        (0, 0x80456122, 1, 0),
        (0, 0x80806123, 0, 127),
        (0, 0x6124, 0, 1),
        (0, 0x1234, 0, 0),
        (0, 0x7602, 0, 0),
    ] {
        assert_eq!(
            dispatch(7, flags, cmd, input, output)
                .unwrap_err()
                .raw_os_error(),
            25
        );
    }
}

fn from_host(
    digest: &[u8],
    result: i32,
    response: &[u8],
    source: Result<TranslatorSource, RosettaError>,
) -> Result<RosettaFsConfig, RosettaError> {
    RosettaFsConfig::from_host(
        RosettaProfile::CapturedCompatibilityV1,
        &b"/root".to_vec(),
        &digest.to_vec(),
        result,
        response.to_vec(),
        source,
    )
}

fn source(snapshot: &[u8], digest: &[u8]) -> Result<TranslatorSource, RosettaError> {
    Ok(TranslatorSource {
        snapshot: snapshot.to_vec(),
        digest: digest.to_vec(),
    })
}

/// The digest of `first synthetic translator`.
const FIRST_DIGEST: [u8; 32] = [
    0x13, 0x05, 0xf2, 0x23, 0x21, 0x21, 0xa9, 0x85,
    0xc8, 0x4f, 0x5e, 0xaf, 0xa0, 0x36, 0x9c, 0xa6,
    0xae, 0x49, 0x84, 0xcd, 0x18, 0x83, 0x58, 0x7c,
    0x7c, 0x2c, 0x52, 0x82, 0x4f, 0xef, 0xc6, 0x3b,
];

/// The digest of `expected`.
const EXPECTED_DIGEST: [u8; 32] = [
    0xce, 0xa2, 0x3d, 0xd4, 0xb8, 0x7e, 0x8b, 0x00,
    0xd1, 0x9f, 0xb9, 0xcc, 0xaa, 0xef, 0x93, 0xe9,
    0x73, 0x53, 0xc7, 0x35, 0x3e, 0x20, 0x70, 0xf3,
    0xba, 0xf0, 0x5a, 0xeb, 0x39, 0x95, 0xdf, 0xf4,
];

/// The digest of `different`.
const DIFFERENT_DIGEST: [u8; 32] = [
    0x9d, 0x6f, 0x96, 0x5a, 0xc8, 0x32, 0xe4, 0x0a,
    0x5d, 0xf6, 0xc0, 0x6a, 0xfe, 0x98, 0x3e, 0x3b,
    0x44, 0x9c, 0x07, 0xb8, 0x43, 0xff, 0x51, 0xce,
    0x76, 0x20, 0x4d, 0xe0, 0x5c, 0x69, 0x0d, 0x11,
];

#[test]
fn config_validation_is_strict() {
    let digest = [7; 32];
    for (digest, result, response) in [
        (&digest[..31], 0, &[0; 1024][..]),
        (&digest[..], -1, &[0; 1024][..]),
        (&digest[..], 0, &[0; 1023][..]),
    ] {
        assert!(matches!(
            from_host(digest, result, response, source(b"bytes", digest)),
            Err(RosettaError::InvalidProfile)
        ));
    }
}

#[test]
fn constructor_snapshots_actual_executable_bytes() {
    let config = from_host(
        &FIRST_DIGEST,
        1,
        &[0x5a; 1024],
        source(b"first synthetic translator", &FIRST_DIGEST),
    )
    .unwrap();
    assert_eq!(config.snapshot, b"first synthetic translator");
    assert_eq!(config.captured_result, 1);
    assert_eq!(config.captured_response, vec![0x5a; 1024]);
}

#[test]
fn constructor_rejects_changed_identity_digest_and_symlinks() {
    assert!(matches!(
        from_host(
            &DIFFERENT_DIGEST,
            0,
            &[0; 1024],
            source(b"expected", &EXPECTED_DIGEST)
        ),
        Err(RosettaError::DigestMismatch)
    ));
    // A link is not followed: the host refuses to open it.
    let mut run = SnapshotRun::new(&b"/root".to_vec()).unwrap();
    run.accept(SnapshotReply::Opened);
    run.accept(same(DIRECTORY));
    run.accept(SnapshotReply::Found(DIRECTORY));
    run.accept(same(DIRECTORY));
    assert_eq!(run.step(), SnapshotStep::OpenTranslator);
    run.accept(SnapshotReply::Refused(40));
    let error = match run.step() {
        SnapshotStep::Failed(error) => error,
        step => panic!("unexpected {step:?}"),
    };
    assert!(matches!(
        from_host(&EXPECTED_DIGEST, 0, &[0; 1024], Err(error)),
        Err(RosettaError::Host(40))
    ));
}

const TRANSLATOR: FileIdentity = FileIdentity {
    dev: 1,
    ino: 2,
    mode: 0o100755,
    size: 8,
    mtime_sec: 3,
    mtime_nsec: 4,
    ctime_sec: 5,
    ctime_nsec: 6,
};

const DIRECTORY: FileIdentity = FileIdentity {
    ino: 9,
    mode: 0o040755,
    ..TRANSLATOR
};

fn same(file: FileIdentity) -> SnapshotReply {
    SnapshotReply::Compared {
        opened: file,
        named: file,
    }
}

/// A run in the directory `/opt/x`, up to the point where the translator is open.
fn opened_run() -> SnapshotRun {
    let mut run = SnapshotRun::new(&b"/opt//x/.".to_vec()).unwrap();
    let steps = [
        (SnapshotStep::OpenBase, SnapshotReply::Opened),
        (SnapshotStep::OpenComponent(0), same(DIRECTORY)),
        (SnapshotStep::OpenComponent(1), same(DIRECTORY)),
        (
            SnapshotStep::LookAtDirectory,
            SnapshotReply::Found(DIRECTORY),
        ),
        (SnapshotStep::CheckDirectory, same(DIRECTORY)),
        (
            SnapshotStep::OpenTranslator,
            SnapshotReply::Found(TRANSLATOR),
        ),
        (SnapshotStep::CheckTranslator, same(TRANSLATOR)),
    ];
    for (step, reply) in steps {
        assert_eq!(run.step(), step);
        run.accept(reply);
    }
    run
}

fn read_whole(run: &mut SnapshotRun) {
    assert_eq!(run.step(), SnapshotStep::Read { offset: 0, len: 8 });
    run.accept(SnapshotReply::Read(ReadReply::Read(3)));
    run.accept(SnapshotReply::Read(ReadReply::Interrupted));
    assert_eq!(run.step(), SnapshotStep::Read { offset: 3, len: 5 });
    run.accept(SnapshotReply::Read(ReadReply::Read(5)));
    assert_eq!(run.step(), SnapshotStep::CheckTranslator);
}

#[test]
fn constructor_detects_atomic_and_in_place_changes_after_open() {
    let replaced = SnapshotReply::Compared {
        opened: TRANSLATOR,
        named: FileIdentity {
            ino: 3,
            ..TRANSLATOR
        },
    };
    let modified = same(FileIdentity {
        mtime_nsec: 5,
        ..TRANSLATOR
    });
    for change in [replaced, modified] {
        let mut run = opened_run();
        read_whole(&mut run);
        run.accept(change);
        assert_eq!(
            run.step(),
            SnapshotStep::Failed(RosettaError::SourceChanged)
        );
    }
    assert!(verify_current(TRANSLATOR, TRANSLATOR, TRANSLATOR).is_ok());
}

#[test]
fn snapshots_are_whole_and_unchanged() {
    let mut run = opened_run();
    read_whole(&mut run);
    run.accept(same(TRANSLATOR));
    assert_eq!(run.step(), SnapshotStep::CheckDirectory);
    run.accept(same(DIRECTORY));
    assert_eq!(run.step(), SnapshotStep::Finished);

    let mut moved = opened_run();
    read_whole(&mut moved);
    moved.accept(same(TRANSLATOR));
    moved.accept(same(FileIdentity {
        ino: 10,
        ..DIRECTORY
    }));
    assert_eq!(
        moved.step(),
        SnapshotStep::Failed(RosettaError::SourceChanged)
    );

    let mut short = opened_run();
    short.accept(SnapshotReply::Read(ReadReply::Read(0)));
    assert_eq!(
        short.step(),
        SnapshotStep::Failed(RosettaError::UnexpectedEof)
    );
    let mut failed = opened_run();
    failed.accept(SnapshotReply::Read(ReadReply::Failed(5)));
    assert_eq!(
        failed.step(),
        SnapshotStep::Failed(RosettaError::Host(5))
    );
}

#[test]
fn translators_are_bounded_executable_files() {
    assert_eq!(judge_translator(TRANSLATOR), Ok(8));
    for unsuitable in [
        FileIdentity {
            mode: 0o120755,
            ..TRANSLATOR
        },
        FileIdentity {
            mode: 0o100644,
            ..TRANSLATOR
        },
        FileIdentity {
            size: -1,
            ..TRANSLATOR
        },
        FileIdentity {
            size: MAX_TRANSLATOR_SIZE as i64 + 1,
            ..TRANSLATOR
        },
    ] {
        assert_eq!(
            judge_translator(unsuitable),
            Err(RosettaError::UnsuitableTranslator)
        );
    }
}

#[test]
fn roots_are_walked_component_by_component() {
    assert_eq!(
        named_components(&b"/opt//x/".to_vec()),
        vec![b"opt".to_vec(), b"x".to_vec()]
    );
    assert!(matches!(
        SnapshotRun::new(&b"opt".to_vec()),
        Err(RosettaError::InvalidProfile)
    ));
    let mut upward = SnapshotRun::new(&b"/opt/../x".to_vec()).unwrap();
    upward.accept(SnapshotReply::Opened);
    assert_eq!(upward.step(), SnapshotStep::OpenComponent(0));
    upward.accept(same(DIRECTORY));
    assert_eq!(
        upward.step(),
        SnapshotStep::Failed(RosettaError::InvalidComponent)
    );
    let mut base = SnapshotRun::new(&b"/./".to_vec()).unwrap();
    base.accept(SnapshotReply::Opened);
    assert_eq!(
        base.step(),
        SnapshotStep::Failed(RosettaError::RootOfFileSystem)
    );
    let mut missing = SnapshotRun::new(&b"/opt/../x".to_vec()).unwrap();
    missing.accept(SnapshotReply::Opened);
    missing.accept(SnapshotReply::Refused(2));
    assert_eq!(
        missing.step(),
        SnapshotStep::Failed(RosettaError::Host(2))
    );
    let mut swapped = SnapshotRun::new(&b"/opt".to_vec()).unwrap();
    swapped.accept(SnapshotReply::Opened);
    swapped.accept(SnapshotReply::Compared {
        opened: DIRECTORY,
        named: FileIdentity {
            ino: 10,
            ..DIRECTORY
        },
    });
    assert_eq!(
        swapped.step(),
        SnapshotStep::Failed(RosettaError::RootChanged)
    );
    assert!(judge_component(DIRECTORY, DIRECTORY).is_ok());
}

#[test]
fn unsuitable_translators_are_not_read() {
    let mut run = SnapshotRun::new(&b"/opt".to_vec()).unwrap();
    run.accept(SnapshotReply::Opened);
    run.accept(same(DIRECTORY));
    run.accept(SnapshotReply::Found(DIRECTORY));
    run.accept(same(DIRECTORY));
    run.accept(SnapshotReply::Found(FileIdentity {
        mode: 0o120755,
        ..TRANSLATOR
    }));
    assert_eq!(
        run.step(),
        SnapshotStep::Failed(RosettaError::UnsuitableTranslator)
    );
}

#[test]
fn nothing_can_be_changed() {
    for request in [
        RefusedRequest::Setattr,
        RefusedRequest::Symlink,
        RefusedRequest::Mknod,
    ] {
        assert_eq!(ImmutableRosettaFs::refuse(request).raw_os_error(), 30);
    }
    assert_eq!(
        ImmutableRosettaFs::refuse(RefusedRequest::Getxattr).raw_os_error(),
        61
    );
    assert_eq!(
        ImmutableRosettaFs::listxattr(0),
        ListxattrReply::Count(0)
    );
    assert_eq!(ImmutableRosettaFs::listxattr(1), ListxattrReply::NoNames);
}

#[test]
fn attributes_are_those_of_the_snapshot() {
    let mut fs = ImmutableRosettaFs::new(config(b"bytes", 0));
    let attributes = fs.getattr(2, None).unwrap();
    assert_eq!(attributes.mode, 0o100555);
    assert_eq!(attributes.ino, 2);
    assert_eq!(
        fs.getattr(3, None).unwrap_err().raw_os_error(),
        2
    );
    assert_eq!(fs.open(1, O_RDONLY).unwrap_err().raw_os_error(), 21);
    assert_eq!(fs.opendir(2, O_RDONLY).unwrap_err().raw_os_error(), 20);
    assert_eq!(
        fs.lookup(2, &b"rosetta".to_vec())
            .unwrap_err()
            .raw_os_error(),
        20
    );
}

#[test]
fn the_root_must_be_absolute_text() {
    let check = |root: &[u8]| {
        RosettaFsConfig::check_profile(&root.to_vec(), &vec![7; 32], 0, &vec![0; 1024])
    };
    assert!(check(b"/root"));
    assert!(check("/caf\u{e9}/\u{20ac}/\u{10348}".as_bytes()));
    assert!(check(b"/\xed\x9f\xbf\xee\x80\x80\xf4\x8f\xbf\xbf"));
    assert!(!check(b""));
    assert!(!check(b"root"));
    assert!(!check(b"/ro\0ot"));
    // A stray continuation, a character that is cut off, encodings that are too long, a
    // surrogate, and a value that is too large.
    assert!(!check(b"/\x80"));
    assert!(!check(b"/\xe2\x82"));
    assert!(!check(b"/\xc3/"));
    assert!(!check(b"/\xc0\xaf"));
    assert!(!check(b"/\xe0\x80\xaf"));
    assert!(!check(b"/\xf0\x80\x80\xaf"));
    assert!(!check(b"/\xed\xa0\x80"));
    assert!(!check(b"/\xf4\x90\x80\x80"));
    assert!(!check(b"/\xff"));
}

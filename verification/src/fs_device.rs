//! The file system device: its tag, features and configuration, and what its worker
//! serves.
use crate::balloon::ActivateError;
use crate::config_space::{config_read, le_bytes, push_le, read_config_space};
use crate::events::EventSet;
use crate::rosetta::RosettaFsConfig;
use crate::vhost_user::VirtioShmRegion;
use vstd::prelude::*;
use vstd::utf8::encode_utf8;

verus! {

/// Bytes of the tag in the configuration space.
pub const VIRTIO_FS_TAG_LEN: usize = 36;

pub const VIRTIO_ID_FS: u32 = 26;

/// Queue numbers: high priority and requests.
pub const HPQ_INDEX: usize = 0;
pub const REQ_INDEX: usize = 1;

/// Why there is no file system device.
#[derive(Clone, Copy, Debug, PartialEq, Eq, Structural)]
pub enum FsError {
    InvalidTagLength { length: usize, max: usize },
    InvalidRosettaTag,
}

/// How far guest permissions are carried over to host files.
#[derive(Clone, Copy, Debug, PartialEq, Eq, Structural)]
pub enum PermissionSemantics {
    LinuxComplete,
    LinuxSimplified,
}

/// `virtio_bindings::virtio_config::VIRTIO_F_VERSION_1`: the number of the feature bit
/// that says that the device keeps to the standard, which is thirty-two.
#[verifier::external_body]
fn version_1_bit() -> (bit: u32)
    ensures
        bit == 32,
{
    virtio_bindings::virtio_config::VIRTIO_F_VERSION_1
}

/// `virtio_bindings::virtio_ring::VIRTIO_RING_F_EVENT_IDX`: the number of the feature bit
/// of notification suppression by event index, which is twenty-nine.
#[verifier::external_body]
fn event_idx_bit() -> (bit: u32)
    ensures
        bit == 29,
{
    virtio_bindings::virtio_ring::VIRTIO_RING_F_EVENT_IDX
}

/// The features on offer: bits thirty-two and twenty-nine.
pub const FS_FEATURES: u64 = 0x1_2000_0000;

/// What the shared directory is served with.
#[derive(Debug)]
pub struct PassthroughConfig {
    pub root_dir: String,
    pub semantics: PermissionSemantics,
    /// How long attributes may be cached, in seconds.
    pub attr_timeout_secs: u64,
    /// The number under which files are exported, once a table is set.
    pub export_fsid: Option<u64>,
}

/// The number under which the monitor keeps something of its own that it lends to the device.
#[derive(Clone, Copy, Debug, PartialEq, Eq, Structural)]
pub struct HostHandle(pub u64);

/// The file system device.
#[derive(Debug)]
pub struct Fs {
    pub avail_features: u64,
    pub acked_features: u64,
    pub activated: bool,
    /// The tag, filled up with zeros.
    pub tag: Vec<u8>,
    pub num_request_queues: u32,
    pub allow_idmap: bool,
    pub shm_region: Option<VirtioShmRegion>,
    pub passthrough_cfg: Option<PassthroughConfig>,
    pub read_only: bool,
    /// Entries that the root directory shows besides those of the host.
    pub virtual_entries: Vec<HostHandle>,
    /// A worker runs.
    pub worker_running: bool,
    /// Where the guest's request to exit leaves its code; nowhere but in the device if there is
    /// none.
    pub exit_code: Option<HostHandle>,
    /// Where requests to map files into the guest go.
    pub map_sender: Option<HostHandle>,
    pub rosetta: Option<RosettaFsConfig>,
}

/// The tag as it stands in the configuration space.
pub open spec fn padded(tag: Seq<u8>) -> Seq<u8> {
    tag + Seq::new((VIRTIO_FS_TAG_LEN - tag.len()) as nat, |i: int| 0u8)
}

impl Fs {
    pub open spec fn wf(self) -> bool {
        self.tag@.len() == VIRTIO_FS_TAG_LEN
    }

    /// The configuration as the guest reads it.
    pub open spec fn config_bytes(self) -> Seq<u8> {
        self.tag@ + le_bytes(self.num_request_queues)
    }

    /// A device with the given tag. The tag's length is measured in bytes.
    pub fn new(
        fs_id: &str,
        semantics: PermissionSemantics,
        shared_dir: Option<String>,
        exit_code: Option<HostHandle>,
        read_only: bool,
        virtual_entries: Vec<HostHandle>,
    ) -> (result: Result<Fs, FsError>)
        ensures
            encode_utf8(fs_id@).len() > VIRTIO_FS_TAG_LEN ==> result == Err::<Fs, _>(
                (FsError::InvalidTagLength {
                    length: encode_utf8(fs_id@).len() as usize,
                    max: VIRTIO_FS_TAG_LEN,
                }),
            ),
            encode_utf8(fs_id@).len() <= VIRTIO_FS_TAG_LEN ==> {
                &&& result matches Ok(fs)
                &&& fs.wf()
                &&& fs.tag@ == padded(encode_utf8(fs_id@))
                &&& fs.num_request_queues == 1
                &&& fs.avail_features == FS_FEATURES
                &&& fs.acked_features == 0
                &&& !fs.activated
                &&& !fs.worker_running
                &&& fs.allow_idmap == (semantics == PermissionSemantics::LinuxComplete)
                &&& fs.shm_region is None
                &&& fs.read_only == read_only
                &&& fs.virtual_entries == virtual_entries
                &&& fs.exit_code == exit_code
                &&& fs.map_sender is None
                &&& fs.rosetta is None
                &&& match shared_dir {
                    None => fs.passthrough_cfg is None,
                    Some(root_dir) => fs.passthrough_cfg == Some(
                        PassthroughConfig {
                            root_dir,
                            semantics,
                            attr_timeout_secs: if semantics
                                == PermissionSemantics::LinuxSimplified {
                                0
                            } else {
                                5
                            },
                            export_fsid: None,
                        },
                    ),
                }
            },
    {
        let bytes = fs_id.as_bytes();
        let tag_len: usize = bytes.len();
        if tag_len > VIRTIO_FS_TAG_LEN {
            return Err(FsError::InvalidTagLength { length: tag_len, max: VIRTIO_FS_TAG_LEN });
        }
        let avail_features: u64 = (1u64 << version_1_bit()) | (1u64 << event_idx_bit());
        assert((1u64 << 32u32) | (1u64 << 29u32) == 0x1_2000_0000u64) by (bit_vector);
        let mut tag: Vec<u8> = Vec::new();
        let mut i: usize = 0;
        while i < tag_len
            invariant
                i <= tag_len,
                tag_len == bytes@.len(),
                tag@ == bytes@.take(i as int),
            decreases tag_len - i,
        {
            tag.push(bytes[i]);
            assert(tag@ == bytes@.take(i + 1));
            i = i + 1;
        }
        assert(tag@ == bytes@);
        while tag.len() < VIRTIO_FS_TAG_LEN
            invariant
                tag_len == bytes@.len(),
                tag_len <= tag@.len() <= VIRTIO_FS_TAG_LEN,
                tag@ == bytes@ + Seq::new((tag@.len() - tag_len) as nat, |i: int| 0u8),
            decreases VIRTIO_FS_TAG_LEN - tag.len(),
        {
            tag.push(0u8);
            assert(tag@ == bytes@ + Seq::new((tag@.len() - tag_len) as nat, |i: int| 0u8));
        }
        // User and group numbers depend on the caller where semantics are simplified, so
        // attributes cannot be cached there.
        let attr_timeout_secs: u64 = if semantics == PermissionSemantics::LinuxSimplified {
            0
        } else {
            5
        };
        let passthrough_cfg = match shared_dir {
            None => None,
            Some(root_dir) => Some(
                PassthroughConfig { root_dir, semantics, attr_timeout_secs, export_fsid: None },
            ),
        };
        Ok(
            Fs {
                avail_features,
                acked_features: 0,
                activated: false,
                tag,
                num_request_queues: 1,
                allow_idmap: semantics == PermissionSemantics::LinuxComplete,
                shm_region: None,
                passthrough_cfg,
                read_only,
                virtual_entries,
                worker_running: false,
                exit_code,
                map_sender: None,
                rosetta: None,
            },
        )
    }

    /// A device that serves the translator, which has to be tagged `rosetta`.
    pub fn new_rosetta(fs_id: &str, config: RosettaFsConfig) -> (result: Result<Fs, FsError>)
        ensures
            encode_utf8(fs_id@) != crate::rosetta::translator_name() ==> result == Err::<Fs, _>(
                FsError::InvalidRosettaTag,
            ),
            encode_utf8(fs_id@) == crate::rosetta::translator_name() ==> {
                &&& result matches Ok(fs)
                &&& fs.wf()
                &&& fs.tag@ == padded(encode_utf8(fs_id@))
                &&& fs.num_request_queues == 1
                &&& fs.rosetta == Some(config)
                &&& fs.read_only
                &&& fs.virtual_entries@.len() == 0
                &&& fs.exit_code is None
                &&& fs.map_sender is None
                &&& fs.allow_idmap
                &&& fs.shm_region is None
                &&& fs.passthrough_cfg is None
                &&& fs.avail_features == FS_FEATURES
                &&& fs.acked_features == 0
                &&& !fs.activated
                &&& !fs.worker_running
            },
    {
        let bytes = fs_id.as_bytes();
        if bytes.len() != 7 || bytes[0] != 0x72 || bytes[1] != 0x6f || bytes[2] != 0x73 || bytes[3]
            != 0x65 || bytes[4] != 0x74 || bytes[5] != 0x74 || bytes[6] != 0x61 {
            proof {
                let name = crate::rosetta::translator_name();
                assert(name.len() == 7 && name[0] == 0x72 && name[1] == 0x6f && name[2] == 0x73
                    && name[3] == 0x65 && name[4] == 0x74 && name[5] == 0x74 && name[6] == 0x61);
            }
            return Err(FsError::InvalidRosettaTag);
        }
        assert(bytes@ == crate::rosetta::translator_name());
        match Fs::new(
            fs_id,
            PermissionSemantics::LinuxComplete,
            None,
            None,
            true,
            Vec::new(),
        ) {
            Ok(mut fs) => {
                fs.rosetta = Some(config);
                Ok(fs)
            },
            Err(error) => Err(error),
        }
    }

    pub fn id(&self) -> (result: &'static str)
        ensures
            result@ == "virtio_fs"@,
    {
        "virtio_fs"
    }

    /// Shows one more entry in the root directory.
    pub fn add_virtual_entry(&mut self, entry: HostHandle)
        ensures
            final(self).virtual_entries@ == old(self).virtual_entries@.push(entry),
            *final(self) == (Fs {
                virtual_entries: final(self).virtual_entries,
                ..*old(self)
            }),
    {
        self.virtual_entries.push(entry);
    }

    pub fn set_exit_code(&mut self, exit_code: HostHandle)
        ensures
            *final(self) == (Fs { exit_code: Some(exit_code), ..*old(self) }),
    {
        self.exit_code = Some(exit_code);
    }

    pub fn set_map_sender(&mut self, map_sender: HostHandle)
        ensures
            *final(self) == (Fs { map_sender: Some(map_sender), ..*old(self) }),
    {
        self.map_sender = Some(map_sender);
    }

    pub fn set_shm_region(&mut self, shm_region: VirtioShmRegion)
        ensures
            *final(self) == (Fs { shm_region: Some(shm_region), ..*old(self) }),
    {
        self.shm_region = Some(shm_region);
    }

    pub fn shm_region(&self) -> (result: Option<VirtioShmRegion>)
        ensures
            result == self.shm_region,
    {
        self.shm_region
    }

    pub fn device_type(&self) -> (result: u32)
        ensures
            result == VIRTIO_ID_FS,
    {
        VIRTIO_ID_FS
    }

    pub fn avail_features(&self) -> (result: u64)
        ensures
            result == self.avail_features,
    {
        self.avail_features
    }

    pub fn acked_features(&self) -> (result: u64)
        ensures
            result == self.acked_features,
    {
        self.acked_features
    }

    pub fn set_acked_features(&mut self, acked_features: u64)
        ensures
            *final(self) == (Fs { acked_features, ..*old(self) }),
    {
        self.acked_features = acked_features;
    }

    /// Takes the next export number, and keeps it where there is a shared directory to
    /// export from. The number is used up in any case.
    pub fn set_export_table(&mut self, next_id: &mut u64) -> (result: u64)
        ensures
            result == *old(next_id),
            *final(next_id) == (*old(next_id)).wrapping_add(1),
            old(self).passthrough_cfg is None ==> *final(self) == *old(self),
            old(self).passthrough_cfg matches Some(cfg) ==> *final(self) == (Fs {
                passthrough_cfg: Some(PassthroughConfig { export_fsid: Some(result), ..cfg }),
                ..*old(self)
            }),
    {
        let id: u64 = *next_id;
        *next_id = id.wrapping_add(1);
        match self.passthrough_cfg.take() {
            None => {},
            Some(mut cfg) => {
                cfg.export_fsid = Some(id);
                self.passthrough_cfg = Some(cfg);
            },
        }
        id
    }

    pub fn read_config(&self, offset: u64, data: &mut Vec<u8>)
        requires
            self.wf(),
        ensures
            final(data)@ == config_read(self.config_bytes(), offset, old(data)@),
    {
        let mut bytes: Vec<u8> = Vec::new();
        let mut i: usize = 0;
        while i < self.tag.len()
            invariant
                i <= self.tag.len(),
                bytes@ == self.tag@.take(i as int),
            decreases self.tag.len() - i,
        {
            bytes.push(self.tag[i]);
            assert(bytes@ == self.tag@.take(i + 1));
            i = i + 1;
        }
        assert(bytes@ == self.tag@);
        push_le(&mut bytes, self.num_request_queues);
        read_config_space(&bytes, offset, data);
    }

    /// Takes note of the worker that was started for an activation; `started` says whether
    /// it could be made.
    pub fn activate(&mut self, started: bool) -> (result: Result<(), ActivateError>)
        requires
            !old(self).worker_running,
        ensures
            result == if started {
                Ok::<(), ActivateError>(())
            } else {
                Err(ActivateError::BadActivate)
            },
            *final(self) == (Fs {
                worker_running: started,
                activated: old(self).activated || started,
                ..*old(self)
            }),
    {
        if !started {
            return Err(ActivateError::BadActivate);
        }
        self.worker_running = true;
        self.activated = true;
        Ok(())
    }

    pub fn is_activated(&self) -> (result: bool)
        ensures
            result == self.activated,
    {
        self.activated
    }

    /// Resets the device, and says whether there is a worker to be stopped first.
    pub fn reset(&mut self) -> (result: bool)
        ensures
            result == old(self).worker_running,
            *final(self) == (Fs { worker_running: false, activated: false, ..*old(self) }),
    {
        let stop: bool = self.worker_running;
        self.worker_running = false;
        self.activated = false;
        stop
    }
}

/// What a worker serves.
#[derive(Clone, Copy, Debug, PartialEq, Eq, Structural)]
pub enum FsServer {
    ReadWrite,
    ReadOnly,
    Null,
    Rosetta,
}

/// How a worker is set up.
#[derive(Debug)]
pub struct FsWorker {
    pub server: FsServer,
    pub allow_idmap: bool,
    pub shm_region: Option<VirtioShmRegion>,
    /// Entries that the root directory shows besides the server's own.
    pub virtual_entries: Vec<HostHandle>,
    /// The guest may ask the monitor to exit.
    pub exit_ioctl: bool,
    /// Where such a request leaves its code.
    pub exit_code: Option<HostHandle>,
    /// Where requests to map files into the guest go.
    pub map_sender: Option<HostHandle>,
}

/// What an event means to a worker.
#[derive(Clone, Copy, Debug, PartialEq, Eq, Structural)]
pub enum WorkerEvent {
    Queue(usize),
    Stop,
    Unknown,
}

impl FsWorker {
    /// The worker of a device: the translator comes first, then the shared directory, and
    /// an empty file system where there is neither. The translator is served as it is, without
    /// what else the device has been lent.
    pub fn new(fs: &Fs) -> (worker: FsWorker)
        ensures
            worker.exit_code == fs.exit_code,
            fs.rosetta is Some ==> {
                &&& worker.server == FsServer::Rosetta
                &&& !worker.allow_idmap
                &&& worker.shm_region is None
                &&& worker.virtual_entries@.len() == 0
                &&& !worker.exit_ioctl
                &&& worker.map_sender is None
            },
            fs.rosetta is None ==> {
                &&& worker.server == if fs.passthrough_cfg is None {
                    FsServer::Null
                } else if fs.read_only {
                    FsServer::ReadOnly
                } else {
                    FsServer::ReadWrite
                }
                &&& worker.allow_idmap == fs.allow_idmap
                &&& worker.shm_region == fs.shm_region
                &&& worker.virtual_entries@ == fs.virtual_entries@
                &&& worker.exit_ioctl
                &&& worker.map_sender == fs.map_sender
            },
    {
        if fs.rosetta.is_some() {
            return FsWorker {
                server: FsServer::Rosetta,
                allow_idmap: false,
                shm_region: None,
                virtual_entries: Vec::new(),
                exit_ioctl: false,
                exit_code: fs.exit_code,
                map_sender: None,
            };
        }
        let server = if fs.passthrough_cfg.is_none() {
            FsServer::Null
        } else if fs.read_only {
            FsServer::ReadOnly
        } else {
            FsServer::ReadWrite
        };
        FsWorker {
            server,
            allow_idmap: fs.allow_idmap,
            shm_region: fs.shm_region,
            virtual_entries: vstd::slice::slice_to_vec(fs.virtual_entries.as_slice()),
            exit_ioctl: true,
            exit_code: fs.exit_code,
            map_sender: fs.map_sender,
        }
    }

    /// What an event means, by the descriptor it happened to. Only plain readability
    /// counts.
    pub fn classify(
        events: EventSet,
        source: i32,
        high_priority: i32,
        request: i32,
        stop: i32,
    ) -> (result: WorkerEvent)
        ensures
            result == if events != EventSet::only_input() {
                WorkerEvent::Unknown
            } else if source == high_priority {
                WorkerEvent::Queue(HPQ_INDEX)
            } else if source == request {
                WorkerEvent::Queue(REQ_INDEX)
            } else if source == stop {
                WorkerEvent::Stop
            } else {
                WorkerEvent::Unknown
            },
    {
        if events != EventSet::readable() {
            return WorkerEvent::Unknown;
        }
        if source == high_priority {
            WorkerEvent::Queue(HPQ_INDEX)
        } else if source == request {
            WorkerEvent::Queue(REQ_INDEX)
        } else if source == stop {
            WorkerEvent::Stop
        } else {
            WorkerEvent::Unknown
        }
    }

    /// The length with which a request is given back: that of the answer, or nothing where
    /// there was an error.
    pub fn used_length(answer: Option<u32>) -> (result: u32)
        ensures
            result == match answer {
                Some(len) => len,
                None => 0,
            },
    {
        match answer {
            Some(len) => len,
            None => 0,
        }
    }
}

} // verus!

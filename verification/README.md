# vmm_core

The decisions of a virtual machine monitor, with contracts that Verus proves: which memory a
guest may lose and gets back, what the socket device does with a packet, what a vCPU answers to
a register access, when a device may be handed to another process.

The library reads no socket, maps no memory and looks at no clock. Such things are done by the
caller, and what came of them is passed in: a descriptor is a number, an instant is a count of
nanoseconds, an answer of the host is a value. So every function can be proved for every answer
that the host may give. Some things it gets from elsewhere itself: `memory` reads and writes guest
memory that is mapped already, through `vm_memory`, and asks `vhost` for what backs it, and the
port of an accepted connection is drawn with `rand`.

## Layout

- `guest_memory`, `ram_layout`: ranges of guest and host memory, and the regions of RAM.
- `ledger`, `mapping_runs`: which ranges are released, leased or on their way between the two.
  `ledger_laws`, `ledger_leases` and `ledger_bounds` state what holds over several operations, and
  `ledger_sound` what holds of every ledger that is used as it is meant to be.
- `reclaim`, `remap`, `discard`: releasing reported pages to the host, extent by extent.
- `probe`, `scratch`, `touch`: finding out whether a host gives released memory back at all.
  `probe_text` puts what was found into words.
- `memory`: guest memory under leases.
- `balloon`, `frq`, `config_space`, `fs_device`, `rosetta`, `snapshot`, `vcpu`: devices and vCPUs.
  `frq` is the balloon's queue of reported pages.
- `vhost_user`, `vhost_gpu`: a device that another process serves.
- `vsock`: the socket device. `control` and `frame` are its control channel, `unix_proxy`,
  `tsi_stream` and `tsi_dgram` its connections, `table`, `muxer` and `muxer_thread` what happens
  to all of them.
- `events`, `platform`, `text`: what the modules share.

`app/` holds the host's side: epoll, sockets, mappings and threads around the library. `tests/`
holds tests of the library with the outside crates linked.

Functions whose names begin with `law_` state what holds of several operations together.

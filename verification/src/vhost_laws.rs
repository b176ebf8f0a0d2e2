//! What a backend is handed, and what it draws.
use crate::guest_memory::HostMemoryAccess;
use crate::memory::{backed, hosts_of, RuntimeGuestMemory};
use crate::vhost_gpu::{
    display_info_word, scanout_spec, update_spec, word_be, word_le, DisplaySize, DrawPlan,
    GpuMessageError, GpuScanout, GpuUpdate, ScanoutAction,
};
use crate::vhost_user::{
    calls_from, fd_or_none, queue_calls, queue_located, queue_mapped, queue_size, shmem_address,
    table_spec, ActivationCall, BackendQueue, GuestQueue, Negotiated, Negotiation, NegotiationCall,
    NegotiationStep, SharedRegion, ShmemError, VhostUserDevice, VirtioShmRegion,
};
use vstd::prelude::*;

verus! {

/// Only the first scanout exists. An empty one is switched off; any other is shown in its own
/// size, on a display of the size that it has or else of the scanout's.
pub proof fn law_scanouts_are_shown_in_their_size(scanout: GpuScanout, display: Option<DisplaySize>)
    ensures
        scanout.scanout_id != 0 <==> scanout_spec(scanout, display) is Err,
        scanout.scanout_id != 0 ==> scanout_spec(scanout, display) == Err::<ScanoutAction, _>(
            GpuMessageError::InvalidScanout(scanout.scanout_id),
        ),
        scanout.scanout_id == 0 && (scanout.width == 0 || scanout.height == 0) ==> scanout_spec(
            scanout,
            display,
        ) == Ok::<ScanoutAction, GpuMessageError>(ScanoutAction::Disable),
        scanout.scanout_id == 0 && scanout.width > 0 && scanout.height > 0 ==> {
            &&& scanout_spec(scanout, display) matches Ok(ScanoutAction::Configure {
                display_width,
                display_height,
                width,
                height,
            })
            &&& width == scanout.width && height == scanout.height
            &&& display matches Some(size) ==> display_width == size.width && display_height
                == size.height
            &&& display is None ==> display_width == width && display_height == height
        },
{
}

/// An update is drawn exactly if it is one of the first scanout, all its pixels came, and its
/// rectangle lies in the frame; it is drawn where it says.
pub proof fn law_updates_are_drawn_where_they_say(
    update: GpuUpdate,
    pixels: int,
    display: Option<DisplaySize>,
)
    ensures
        ({
            let (w, h) = match display {
                Some(size) => (size.width, size.height),
                None => (update.width, update.height),
            };
            let whole = pixels >= update.width * update.height * 4;
            let fits = update.x + update.width <= w && update.y + update.height <= h;
            &&& update_spec(update, pixels, display) is Ok <==> update.scanout_id == 0 && whole
                && fits
            &&& update_spec(update, pixels, display) matches Ok(plan) ==> plan.x == update.x
                && plan.y == update.y && plan.width == update.width && plan.height == update.height
                && plan.frame_width == w && plan.frame_height == h && plan.pixel_bytes()
                == update.width * update.height * 4 && plan.frame_bytes() == w * h * 4
            &&& update.scanout_id == 0 && !whole ==> update_spec(update, pixels, display) == Err::<
                DrawPlan,
                _,
            >(GpuMessageError::PixelsTooShort)
            &&& update.scanout_id == 0 && whole && !fits ==> update_spec(update, pixels, display)
                == Err::<DrawPlan, _>(GpuMessageError::OutOfBounds)
        }),
{
}

/// After an update every pixel of its rectangle is the one that came for it, and every other
/// pixel of the frame is as it was. `column` and `line` name a pixel of the frame and `byte` one
/// of its four bytes.
pub proof fn law_drawing_changes_exactly_the_rectangle(
    plan: DrawPlan,
    before: Seq<u8>,
    pixels: Seq<u8>,
    after: Seq<u8>,
    column: int,
    line: int,
    byte: int,
)
    requires
        plan.wf(),
        plan.drawn(before, pixels, after),
        before.len() == plan.frame_width * plan.frame_height * 4,
        0 <= column < plan.frame_width,
        0 <= line < plan.frame_height,
        0 <= byte < 4,
    ensures
        ({
            let inside = plan.x <= column < plan.x + plan.width && plan.y <= line < plan.y
                + plan.height;
            let at = (line * plan.frame_width + column) * 4 + byte;
            &&& inside ==> after[at] == pixels[((line - plan.y) * plan.width + (column - plan.x)) * 4
                + byte]
            &&& !inside ==> after[at] == before[at]
            &&& after.len() == before.len()
        }),
{
    let fw = plan.frame_width as int;
    let at = (line * fw + column) * 4 + byte;
    let inside = plan.x <= column < plan.x + plan.width && plan.y <= line < plan.y + plan.height;
    assert(0 <= at < before.len()) by (nonlinear_arith)
        requires
            at == (line * fw + column) * 4 + byte,
            0 <= column < fw,
            0 <= line < plan.frame_height,
            0 <= byte < 4,
            before.len() == fw * plan.frame_height * 4,
    ;
    if inside {
        let row = line - plan.y;
        let place = (column - plan.x) * 4 + byte;
        assert(plan.inside(row, place));
        assert(plan.target(row, place) == at) by (nonlinear_arith)
            requires
                plan.target(row, place) == ((plan.y + row) * fw + plan.x) * 4 + place,
                row == line - plan.y,
                place == (column - plan.x) * 4 + byte,
                at == (line * fw + column) * 4 + byte,
        ;
        let from = ((line - plan.y) * plan.width + (column - plan.x)) * 4 + byte;
        assert(plan.source(row, place) == from) by (nonlinear_arith)
            requires
                plan.source(row, place) == row * plan.width * 4 + place,
                row == line - plan.y,
                place == (column - plan.x) * 4 + byte,
                from == ((line - plan.y) * plan.width + (column - plan.x)) * 4 + byte,
        ;
        assert(after[plan.target(row, place)] == pixels[plan.source(row, place)]);
    } else {
        assert forall|row: int, place: int|
            #![trigger plan.target(row, place)]
            plan.inside(row, place) && row < plan.height implies plan.target(row, place) != at by {
            if plan.target(row, place) == at {
                let other = plan.x + place / 4;
                assert((plan.y + row) * fw + other == line * fw + column) by {
                    let first = (plan.y + row) * fw + other;
                    let second = line * fw + column;
                    assert(4 * first + place % 4 == 4 * second + byte) by {
                        assert(plan.target(row, place) == ((plan.y + row) * fw + plan.x) * 4
                            + place);
                    }
                }
                lemma_one_pixel(plan.y + row, other, line, column, fw);
            }
        }
        assert(after[at] == before[at]);
    }
}

/// A pixel of a frame has one line and one column.
proof fn lemma_one_pixel(line: int, column: int, other_line: int, other_column: int, width: int)
    requires
        0 <= column < width,
        0 <= other_column < width,
        line * width + column == other_line * width + other_column,
    ensures
        line == other_line,
        column == other_column,
{
    assert(line == other_line) by (nonlinear_arith)
        requires
            0 <= column < width,
            0 <= other_column < width,
            line * width + column == other_line * width + other_column,
    ;
}

/// The answer with the display's modes starts with its number and has sixteen modes of six words:
/// place, size, whether the mode is enabled, and flags. The first is enabled and has the
/// display's size; the others are empty.
pub proof fn law_first_mode_is_the_display(display: Option<DisplaySize>, mode: int, field: int)
    requires
        0 <= mode < 16,
        0 <= field < 6,
    ensures
        display_info_word(display, 0) == 0x1101,
        1 <= field ==> display_info_word(display, field) == 0,
        display_info_word(display, 6 + mode * 6 + field) == if mode > 0 {
            0
        } else if field == 2 {
            match display {
                Some(size) => size.width,
                None => 0,
            }
        } else if field == 3 {
            match display {
                Some(size) => size.height,
                None => 0,
            }
        } else if field == 4 {
            1
        } else {
            0
        },
{
}

/// A range of the device's memory lies as far into the host's memory as into the device's, and
/// is found exactly if the device's memory holds all of it.
pub proof fn law_shared_ranges_keep_their_offset(
    region: Option<VirtioShmRegion>,
    offset: u64,
    len: u64,
)
    requires
        region matches Some(memory) ==> memory.valid(),
    ensures
        match region {
            None => shmem_address(region, offset, len) == Err::<u64, _>(ShmemError::NotSupported),
            Some(memory) => {
                &&& offset + len <= memory.size ==> (shmem_address(region, offset, len) matches Ok(
                    address,
                ) && address == memory.host_addr + offset)
                &&& offset + len > memory.size ==> shmem_address(region, offset, len) == Err::<
                    u64,
                    _,
                >(ShmemError::Invalid)
            },
        },
{
}

/// With extensions of the protocol, what is switched on is what both ends know, and that is what
/// the device goes by; the guest is offered the backend's features but for the bit of the
/// extensions. The number of queues is the one that was asked for, or else the backend's.
pub proof fn law_agreed_features_are_those_of_both(
    num_queues: u16,
    features: u64,
    offered: u64,
    ignored: u64,
    queues: u64,
)
    requires
        features & (1u64 << 30) != 0,
    ensures
        ({
            let start = Negotiation {
                num_queues,
                features: None,
                offered: None,
                protocol_set: false,
                backend_queues: None,
            };
            let second = start.accept_spec(features);
            let third = second.accept_spec(offered);
            let fourth = third.accept_spec(ignored);
            let end = fourth.accept_spec(queues);
            let known = offered & 0x40_0221;
            &&& start.next_spec() == NegotiationStep::Call(NegotiationCall::GetFeatures)
            &&& second.next_spec() == NegotiationStep::Call(NegotiationCall::GetProtocolFeatures)
            &&& third.next_spec() == NegotiationStep::Call(
                NegotiationCall::SetProtocolFeatures(known),
            )
            &&& num_queues == 0 ==> fourth.next_spec() == NegotiationStep::Call(
                NegotiationCall::GetQueueNum,
            )
            &&& end.next_spec() == NegotiationStep::Done(
                Negotiated {
                    avail_features: features & !(1u64 << 30),
                    has_protocol_features: true,
                    protocol_features: known,
                    num_queues: if num_queues == 0 {
                        queues
                    } else {
                        num_queues as u64
                    },
                },
            )
        }),
{
    assert(1u64 << 30 == 0x4000_0000u64) by (bit_vector);
}

/// Without extensions nothing is switched on, and the number of queues has to be asked for.
pub proof fn law_plain_backends_need_a_queue_count(num_queues: u16, features: u64)
    requires
        features & (1u64 << 30) == 0,
    ensures
        ({
            let start = Negotiation {
                num_queues,
                features: None,
                offered: None,
                protocol_set: false,
                backend_queues: None,
            };
            let end = start.accept_spec(features);
            &&& num_queues == 0 ==> end.next_spec() == NegotiationStep::QueueCountNeeded
            &&& num_queues > 0 ==> end.next_spec() == NegotiationStep::Done(
                Negotiated {
                    avail_features: features & !(1u64 << 30),
                    has_protocol_features: false,
                    protocol_features: 0,
                    num_queues: num_queues as u64,
                },
            )
        }),
{
    assert(1u64 << 30 == 0x4000_0000u64) by (bit_vector);
}

/// A queue has the size that was asked for it, else the last one that was asked for, else 256.
pub proof fn law_queue_sizes(sizes: Seq<u16>, index: int)
    requires
        0 <= index,
    ensures
        index < sizes.len() ==> queue_size(sizes, index) == sizes[index],
        0 < sizes.len() <= index ==> queue_size(sizes, index) == sizes[sizes.len() - 1],
        sizes.len() == 0 ==> queue_size(sizes, index) == 256,
{
}

/// The backend is told of exactly the regions that a file backs, each as it is.
pub proof fn law_backed_regions_are_shared(
    backing: Seq<Option<(u64, u64, u64, u64, i32)>>,
    region: SharedRegion,
)
    ensures
        table_spec(backing).contains(region) <==> backing.contains(
            Some(
                (
                    region.guest_phys_addr,
                    region.memory_size,
                    region.userspace_addr,
                    region.mmap_offset,
                    region.mmap_handle,
                ),
            ),
        ),
        table_spec(backing).len() <= backing.len(),
    decreases backing.len(),
{
    if backing.len() > 0 {
        let rest = backing.drop_last();
        law_backed_regions_are_shared(rest, region);
        let some = table_spec(rest);
        let all = table_spec(backing);
        let own = Some(
            (
                region.guest_phys_addr,
                region.memory_size,
                region.userspace_addr,
                region.mmap_offset,
                region.mmap_handle,
            ),
        );
        assert(backing[backing.len() - 1] == backing.last());
        if backing.contains(own) && backing.last() != own {
            let k = choose|k: int| 0 <= k < backing.len() && backing[k] == own;
            assert(rest[k] == own);
        }
        if rest.contains(own) {
            let k = choose|k: int| 0 <= k < rest.len() && rest[k] == own;
            assert(backing[k] == own);
        }
        if some.contains(region) {
            let k = choose|k: int| 0 <= k < some.len() && some[k] == region;
            assert(all[k] == region);
        }
        if backing.last() is Some {
            if backing.last() == own {
                assert(all[some.len() as int] == region);
            }
            if all.contains(region) && backing.last() != own {
                let k = choose|k: int| 0 <= k < all.len() && all[k] == region;
                assert(some[k] == region);
            }
        }
    }
}

/// A queue whose rings are all mapped is handed over with its own size, from its first entry on,
/// with each ring where it is mapped, and is started last of all.
pub proof fn law_mapped_queue_is_handed_over(index: usize, queue: BackendQueue, extended: bool)
    requires
        queue.desc_table.host is Some,
        queue.avail_ring.host is Some,
        queue.used_ring.host is Some,
    ensures
        ({
            let calls = queue_calls(index as int, queue, extended);
            &&& calls.len() == if extended {
                6int
            } else {
                5int
            }
            &&& calls[0] == (ActivationCall::SetVringNum { queue: index, size: queue.size })
            &&& calls[1] == (ActivationCall::SetVringBase { queue: index, base: 0 })
            &&& calls[2] matches ActivationCall::SetVringAddr { queue: at, config }
            &&& at == index && config.queue_size == queue.size && config.queue_max_size
                == queue.max_size
            &&& Some(config.desc_table_addr) == queue.desc_table.host
            &&& Some(config.avail_ring_addr) == queue.avail_ring.host
            &&& Some(config.used_ring_addr) == queue.used_ring.host
            &&& calls[3] == (ActivationCall::SetVringKick { queue: index })
            &&& calls[4] == (ActivationCall::SetVringCall { queue: index })
            &&& extended ==> calls[5] == (ActivationCall::EnableVring { queue: index })
        }),
{
}

/// A queue with a ring that is not mapped ends the activation with that ring's address.
pub proof fn law_unmapped_ring_ends_the_activation(index: usize, queue: BackendQueue, extended: bool)
    requires
        !queue_mapped(queue),
    ensures
        ({
            let calls = queue_calls(index as int, queue, extended);
            &&& calls.len() == 3
            &&& calls[2] matches ActivationCall::MissingAddress(address)
            &&& queue.desc_table.host is None ==> address == queue.desc_table.guest
            &&& queue.desc_table.host is Some && queue.avail_ring.host is None ==> address
                == queue.avail_ring.guest
            &&& queue.desc_table.host is Some && queue.avail_ring.host is Some ==> address
                == queue.used_ring.guest
        }),
{
}

/// Where every ring is mapped, every queue is handed over under its own number, one after the
/// other.
pub proof fn law_every_queue_is_handed_over(
    queues: Seq<BackendQueue>,
    from: int,
    extended: bool,
    index: int,
    step: int,
)
    requires
        0 <= from <= index < queues.len(),
        forall|i: int| 0 <= i < queues.len() ==> queue_mapped(#[trigger] queues[i]),
        0 <= step < (if extended {
            6int
        } else {
            5int
        }),
    ensures
        ({
            let each = if extended {
                6int
            } else {
                5int
            };
            let at = (index - from) * each + step;
            &&& 0 <= at < calls_from(queues, from, extended).len()
            &&& calls_from(queues, from, extended)[at] == queue_calls(
                index,
                queues[index],
                extended,
            )[step]
        }),
    decreases queues.len() - from,
{
    let first = queue_calls(from, queues[from], extended);
    assert(queue_mapped(queues[from]));
    if from < index {
        law_every_queue_is_handed_over(queues, from + 1, extended, index, step);
        assert((index - from) * 6 + step == (index - (from + 1)) * 6 + step + 6);
        assert((index - from) * 5 + step == (index - (from + 1)) * 5 + step + 5);
    } else {
        assert((index - from) * 6 == 0 && (index - from) * 5 == 0);
    }
}

/// The backend is told all features that the guest took, and the bit of the extensions exactly
/// where it has them.
pub proof fn law_backends_are_told_the_guests_features(device: VhostUserDevice)
    ensures
        device.backend_features() & !(1u64 << 30) == device.acked_features & !(1u64 << 30),
        device.has_protocol_features ==> device.backend_features() & (1u64 << 30) != 0,
        !device.has_protocol_features ==> device.backend_features() == device.acked_features,
{
    let acked = device.acked_features;
    assert(1u64 << 30 == 0x4000_0000u64 && (acked | 0x4000_0000u64) & !0x4000_0000u64 == acked
        & !0x4000_0000u64 && (acked | 0x4000_0000u64) & 0x4000_0000u64 != 0) by (bit_vector);
}

/// The owner is set first. A socket for drawing is made for a GPU only, a channel for requests
/// only where that was agreed; then the shared memory, the features and the interrupt follow.
pub proof fn law_activation_starts_in_order(device: VhostUserDevice, table: Vec<SharedRegion>)
    ensures
        ({
            let calls = device.first_calls(table);
            let n = calls.len() as int;
            let gpu = device.device_type == 16;
            let channel = device.protocol_features & 0x20 == 0x20;
            &&& n == 4 + (if gpu {
                1int
            } else {
                0
            }) + (if channel {
                1int
            } else {
                0
            })
            &&& calls[0] == ActivationCall::SetOwner
            &&& gpu ==> calls[1] == ActivationCall::SetGpuSocket
            &&& channel ==> calls[n - 4] == ActivationCall::SetBackendRequestChannel
            &&& calls[n - 3] == ActivationCall::SetMemTable(table)
            &&& calls[n - 2] == ActivationCall::SetFeatures(device.backend_features())
            &&& calls[n - 1] == ActivationCall::CreateCallEvent
        }),
{
}

/// Everything that an active device has is watched, once each, interrupts first; a device without
/// its interrupt watches nothing. A descriptor that is missing has no number of a descriptor.
pub proof fn law_active_devices_watch_what_they_have(device: VhostUserDevice, fd: i32)
    ensures
        device.vring_call_event is None ==> device.watched().len() == 0,
        device.vring_call_event is Some ==> {
            &&& device.watched()[0] == device.vring_call_event->0
            &&& device.watched().len() == 1 + (if device.gpu_socket is Some {
                1int
            } else {
                0
            }) + (if device.backend_req is Some {
                1int
            } else {
                0
            })
            &&& device.gpu_socket matches Some(socket) ==> device.watched()[1] == socket
            &&& device.backend_req matches Some(channel) ==> device.watched().last() == channel
        },
        fd_or_none(Some(fd)) == fd,
        fd_or_none(None) == -1,
{
}

/// The first queue with a ring that is not mapped ends the calls: the queues before it are handed
/// over, and nothing follows the missing address.
pub proof fn law_calls_end_at_a_missing_ring(
    queues: Seq<BackendQueue>,
    from: int,
    extended: bool,
    index: int,
)
    requires
        0 <= from <= index < queues.len(),
        forall|i: int| from <= i < index ==> queue_mapped(#[trigger] queues[i]),
        !queue_mapped(queues[index]),
    ensures
        ({
            let each = if extended {
                6int
            } else {
                5int
            };
            let calls = calls_from(queues, from, extended);
            &&& calls.len() == (index - from) * each + 3
            &&& calls.last() is MissingAddress
        }),
    decreases index - from,
{
    if from < index {
        assert(queue_mapped(queues[from]));
        law_calls_end_at_a_missing_ring(queues, from + 1, extended, index);
        let rest = calls_from(queues, from + 1, extended);
        assert(calls_from(queues, from, extended).last() == rest.last());
    } else {
        assert((index - from) * 6 == 0 && (index - from) * 5 == 0);
    }
}

/// Where every ring is mapped nothing follows the last queue.
pub proof fn law_nothing_follows_the_last_queue(
    queues: Seq<BackendQueue>,
    from: int,
    extended: bool,
)
    requires
        0 <= from <= queues.len(),
        forall|i: int| 0 <= i < queues.len() ==> queue_mapped(#[trigger] queues[i]),
    ensures
        calls_from(queues, from, extended).len() == (queues.len() - from) * (if extended {
            6int
        } else {
            5int
        }),
    decreases queues.len() - from,
{
    if from < queues.len() {
        assert(queue_mapped(queues[from]));
        law_nothing_follows_the_last_queue(queues, from + 1, extended);
    } else {
        assert((queues.len() - from) * 6 == 0 && (queues.len() - from) * 5 == 0);
    }
}

/// A word of a message is its four bytes: the first one is the lowest in the one order and the
/// highest in the other.
pub proof fn law_words_are_four_bytes(bytes: Seq<u8>, at: int)
    ensures
        word_le(bytes, at) % 0x100 == bytes[at],
        word_le(bytes, at) / 0x100 % 0x100 == bytes[at + 1],
        word_le(bytes, at) / 0x1_0000 % 0x100 == bytes[at + 2],
        word_le(bytes, at) / 0x100_0000 == bytes[at + 3],
        word_be(bytes, at) % 0x100 == bytes[at + 3],
        word_be(bytes, at) / 0x100 % 0x100 == bytes[at + 2],
        word_be(bytes, at) / 0x1_0000 % 0x100 == bytes[at + 1],
        word_be(bytes, at) / 0x100_0000 == bytes[at],
{
    lemma_four_bytes(bytes[at], bytes[at + 1], bytes[at + 2], bytes[at + 3]);
    lemma_four_bytes(bytes[at + 3], bytes[at + 2], bytes[at + 1], bytes[at]);
}

/// Four bytes are found again in the number that they make up.
proof fn lemma_four_bytes(a: u8, b: u8, c: u8, d: u8)
    ensures
        ({
            let word = a + 0x100 * b + 0x1_0000 * c + 0x100_0000 * d;
            &&& word % 0x100 == a
            &&& word / 0x100 % 0x100 == b
            &&& word / 0x1_0000 % 0x100 == c
            &&& word / 0x100_0000 == d
        }),
{
    let word = a + 0x100 * b + 0x1_0000 * c + 0x100_0000 * d;
    let second = b + 0x100 * c + 0x1_0000 * d;
    let third = c + 0x100 * d;
    assert(word == a + 0x100 * second);
    assert(word / 0x100 == second && word % 0x100 == a);
    assert(second == b + 0x100 * third);
    assert(second / 0x100 == third && second % 0x100 == b);
    assert(third / 0x100 == d as int && third % 0x100 == c as int);
    assert(word / 0x1_0000 == third);
    assert(word / 0x100_0000 == d as int);
}

/// A queue is handed on with the sizes and the addresses that the guest gave it. A ring has a place
/// in the host's memory only if its address is memory, and has one there wherever nobody grants
/// leases.
pub proof fn law_queues_keep_what_the_guest_set<A: HostMemoryAccess>(
    memory: RuntimeGuestMemory<A>,
    guest: GuestQueue,
    queue: BackendQueue,
)
    requires
        queue_located(memory, guest, queue),
    ensures
        queue.size == guest.size && queue.max_size == guest.max_size,
        queue.desc_table.guest == guest.desc_table,
        queue.avail_ring.guest == guest.avail_ring,
        queue.used_ring.guest == guest.used_ring,
        queue.desc_table.host matches Some(host) ==> backed(
            memory.regions(),
            guest.desc_table as int,
        ) && host == hosts_of(memory.memory)[guest.desc_table],
        queue.avail_ring.host matches Some(host) ==> backed(
            memory.regions(),
            guest.avail_ring as int,
        ) && host == hosts_of(memory.memory)[guest.avail_ring],
        queue.used_ring.host matches Some(host) ==> backed(
            memory.regions(),
            guest.used_ring as int,
        ) && host == hosts_of(memory.memory)[guest.used_ring],
        memory.access is None && backed(memory.regions(), guest.desc_table as int)
            ==> queue.desc_table.host is Some,
        memory.access is None && backed(memory.regions(), guest.avail_ring as int)
            ==> queue.avail_ring.host is Some,
        memory.access is None && backed(memory.regions(), guest.used_ring as int)
            ==> queue.used_ring.host is Some,
{
}

} // verus!

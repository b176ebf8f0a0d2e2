//! What the guest's drivers read, and what is done with the pages that they report.
use crate::balloon::{
    any_descriptor_has, any_run_has, descriptor_has, law_merged_is_coalesced, merged, Balloon,
    ReportChain, VirtioBalloonConfig,
};
use crate::config_space::{config_read, le_bytes};
use crate::discard::is_page_run;
use crate::frq::{
    chain_calls, fate_of, session_after, AdviceTarget, FrqAction, FrqError, FrqEvent, FrqSession,
    FrqState, ReportFate,
};
use crate::fs_device::{padded, Fs};
use crate::platform::HostPlatform;
use crate::reclaim::ReclaimStateError;
use vstd::prelude::*;

verus! {

/// A word is read back from its bytes, the lowest first.
pub proof fn law_words_are_read_lowest_byte_first(value: u32)
    ensures
        le_bytes(value).len() == 4,
        le_bytes(value)[0] + 256 * le_bytes(value)[1] + 65536 * le_bytes(value)[2] + 16777216
            * le_bytes(value)[3] == value,
{
    assert(value as int == value as int % 256 + 256 * (value as int / 256 % 256) + 65536 * (
    value as int / 65536 % 256) + 16777216 * (value as int / 16777216 % 256));
}

/// The balloon's configuration is four words: the pages that the host wants, the pages that it
/// has, the number of the hint and the poison.
pub proof fn law_balloon_configuration(config: VirtioBalloonConfig, i: int)
    requires
        0 <= i < 4,
    ensures
        config.bytes().len() == 16,
        config.bytes()[i] == le_bytes(config.num_pages)[i],
        config.bytes()[4 + i] == le_bytes(config.actual)[i],
        config.bytes()[8 + i] == le_bytes(config.free_page_report_cmd_id)[i],
        config.bytes()[12 + i] == le_bytes(config.poison_val)[i],
{
}

/// A file system's configuration is its tag in 36 bytes, filled up with zeros, and the number of
/// its queues.
pub proof fn law_file_system_configuration(fs: Fs, tag: Seq<u8>, i: int)
    requires
        tag.len() <= 36,
        fs.tag@ == padded(tag),
    ensures
        padded(tag).len() == 36,
        0 <= i < tag.len() ==> fs.config_bytes()[i] == tag[i],
        tag.len() <= i < 36 ==> fs.config_bytes()[i] == 0,
        fs.config_bytes().len() == 40,
        0 <= i < 4 ==> fs.config_bytes()[36 + i] == le_bytes(fs.num_request_queues)[i],
{
}

/// A run of pages starts and ends at a page of the host's size, holds at least one, and lies
/// within the address space.
pub proof fn law_page_runs_are_whole_pages(
    address: usize,
    length: usize,
    page_size: usize,
    native: usize,
)
    requires
        native > 0,
    ensures
        is_page_run(address, length, page_size, native) <==> page_size == native && address
            % native == 0 && length % native == 0 && length > 0 && address + length <= usize::MAX,
{
}

/// The merged ranges hold exactly the reported addresses, each once, and as few ranges as can
/// be: an address is in a range exactly if some descriptor that does not run past the last
/// address holds it, and no two ranges touch.
pub proof fn law_merged_ranges_are_the_reported_addresses(
    descriptors: Seq<(u64, u32)>,
    a: int,
    i: int,
    j: int,
)
    ensures
        (exists|k: int|
            0 <= k < descriptors.len() && (#[trigger] descriptors[k]).0 <= a < descriptors[k].0
                + descriptors[k].1 && descriptors[k].0 + descriptors[k].1 <= u64::MAX) <==> (exists|
            k: int,
        |
            0 <= k < merged(descriptors).len() && (#[trigger] merged(descriptors)[k]).start <= a
                < merged(descriptors)[k].end),
        0 <= i < j < merged(descriptors).len() ==> merged(descriptors)[i].end < merged(
            descriptors,
        )[j].start,
        0 <= i < merged(descriptors).len() ==> merged(descriptors)[i].start < merged(
            descriptors,
        )[i].end,
{
    law_merged_is_coalesced(descriptors);
    let runs = merged(descriptors);
    assert(any_run_has(runs, a) <==> any_descriptor_has(descriptors, a));
    if exists|k: int|
        0 <= k < descriptors.len() && (#[trigger] descriptors[k]).0 <= a < descriptors[k].0
            + descriptors[k].1 && descriptors[k].0 + descriptors[k].1 <= u64::MAX {
        let k = choose|k: int|
            0 <= k < descriptors.len() && (#[trigger] descriptors[k]).0 <= a < descriptors[k].0
                + descriptors[k].1 && descriptors[k].0 + descriptors[k].1 <= u64::MAX;
        assert(descriptor_has(descriptors[k], a));
        let r = choose|r: int| 0 <= r < runs.len() && (#[trigger] runs[r]).has(a);
        assert(runs[r].start <= a < runs[r].end);
    }
    if exists|k: int| 0 <= k < runs.len() && (#[trigger] runs[k]).start <= a < runs[k].end {
        let k = choose|k: int| 0 <= k < runs.len() && (#[trigger] runs[k]).start <= a < runs[k].end;
        assert(runs[k].has(a));
        let d = choose|d: int|
            0 <= d < descriptors.len() && descriptor_has(#[trigger] descriptors[d], a);
        assert(descriptors[d].0 <= a < descriptors[d].0 + descriptors[d].1);
    }
}

/// With a reclaim state on macOS, every address that a guest reported is released, and no other
/// is: an address lies in a range that is released exactly if a descriptor of the chain holds it.
pub proof fn law_reported_addresses_are_released(
    session: FrqSession,
    chain: ReportChain,
    hosts: Seq<Option<u64>>,
    a: int,
)
    requires
        !chain.truncated,
        session.negotiated,
        session.platform == HostPlatform::Macos,
        session.has_reclaim_state,
    ensures
        ({
            let calls = chain_calls(session, chain, hosts);
            let descriptors = chain.descriptors@;
            &&& (exists|k: int| #[trigger] releases_address(calls, k, a)) <==> (exists|k: int|
                0 <= k < descriptors.len() && (#[trigger] descriptors[k]).0 <= a
                    < descriptors[k].0 + descriptors[k].1 && descriptors[k].0 + descriptors[k].1
                    <= u64::MAX)
            &&& calls.last() == (FrqAction::GiveBack { index: chain.index, len: 0 })
            &&& calls[0] is Prepare <==> session.has_remapper && !session.prepared
        }),
{
    let calls = chain_calls(session, chain, hosts);
    let runs = merged(chain.descriptors@);
    law_merged_ranges_are_the_reported_addresses(chain.descriptors@, a, 0, 0);
    let shift: int = if session.has_remapper && !session.prepared {
        1
    } else {
        0
    };
    assert(calls.len() == runs.len() + shift + 1);
    assert forall|r: int| 0 <= r < runs.len() implies calls[r + shift] == FrqAction::Release(
        #[trigger] runs[r],
    ) by {
    }
    if exists|r: int| 0 <= r < runs.len() && (#[trigger] runs[r]).start <= a < runs[r].end {
        let r = choose|r: int| 0 <= r < runs.len() && (#[trigger] runs[r]).start <= a < runs[r].end;
        assert(calls[r + shift] == FrqAction::Release(runs[r]));
        assert(releases_address(calls, r + shift, a));
    }
    if exists|k: int| #[trigger] releases_address(calls, k, a) {
        let k = choose|k: int| #[trigger] releases_address(calls, k, a);
        assert(calls[k] is Release);
        assert(0 <= k - shift < runs.len());
        assert(calls[(k - shift) + shift] == FrqAction::Release(runs[k - shift]));
        assert(runs[k - shift].start <= a < runs[k - shift].end);
    }
}

/// The action at `k` releases a range with the address.
pub open spec fn releases_address(calls: Seq<FrqAction>, k: int, a: int) -> bool {
    0 <= k < calls.len() && (calls[k] matches FrqAction::Release(range) && range.start <= a
        < range.end)
}

/// Elsewhere the host is advised of each descriptor where it lies, once its place is known, with
/// its own length and in the order of the chain. A chain with a descriptor that lies nowhere has
/// no advice given, and is given back all the same.
pub proof fn law_reported_pages_are_advised(
    session: FrqSession,
    chain: ReportChain,
    hosts: Seq<Option<u64>>,
    k: int,
)
    requires
        !chain.truncated,
        session.negotiated,
        session.platform != HostPlatform::Macos,
        hosts.len() == chain.descriptors@.len(),
    ensures
        ({
            let calls = chain_calls(session, chain, hosts);
            let found = forall|i: int| 0 <= i < hosts.len() ==> (#[trigger] hosts[i]) is Some;
            &&& calls[0] == FrqAction::Resolve
            &&& found ==> calls.len() == hosts.len() + 2
            &&& !found ==> calls.len() == 2
            &&& found && 0 <= k < hosts.len() ==> calls[k + 1] == FrqAction::Advise(
                AdviceTarget { host: hosts[k]->0, len: chain.descriptors@[k].1 },
            )
            &&& calls.last() == (FrqAction::GiveBack { index: chain.index, len: 0 })
        }),
{
}

/// A chain that is malformed, not negotiated or without a reclaim state on macOS is given back
/// and nothing else; what became of it says why.
pub proof fn law_other_chains_are_only_given_back(
    session: FrqSession,
    chain: ReportChain,
    hosts: Seq<Option<u64>>,
)
    requires
        chain.truncated || !session.negotiated || (session.platform == HostPlatform::Macos
            && !session.has_reclaim_state),
    ensures
        chain_calls(session, chain, hosts).len() == 1,
        chain_calls(session, chain, hosts)[0] == (FrqAction::GiveBack {
            index: chain.index,
            len: 0,
        }),
        fate_of(session, chain) == ReportFate::Malformed <==> chain.truncated,
        fate_of(session, chain) == ReportFate::Unnegotiated <==> !chain.truncated
            && !session.negotiated,
{
}

/// Mappings are made normal at most once, before the first release, and the guest is told if
/// any chain was taken.
pub proof fn law_mappings_are_made_normal_once(session: FrqSession, chain: ReportChain)
    ensures
        session_after(session, chain).have_used,
        session.prepared ==> session_after(session, chain).prepared,
        session_after(session, chain).prepared && !session.prepared ==> chain_calls(
            session,
            chain,
            seq![],
        )[0] is Prepare,
        session.prepared ==> !(chain_calls(session, chain, seq![])[0] is Prepare),
        session_after(session, chain).negotiated == session.negotiated,
        session_after(session, chain).platform == session.platform,
        session_after(session, chain).has_reclaim_state == session.has_reclaim_state,
        session_after(session, chain).has_remapper == session.has_remapper,
{
}

/// Where the mappings cannot be made normal, a release fails or a chain is not taken back, the
/// handling ends with that; an empty queue ends it well, and the guest is told if a chain was
/// taken. Until then what is left is done in order.
pub proof fn law_handling_ends_where_it_fails(
    state: FrqState,
    error: ReclaimStateError,
)
    requires
        state.end is None,
    ensures
        state.after(FrqEvent::Empty).action() == FrqAction::Done(state.session.have_used),
        state.after(FrqEvent::Prepared(Err(error))).action() == FrqAction::Fail(
            FrqError::Reclaim(error),
        ),
        state.after(FrqEvent::Released(Err(error))).action() == FrqAction::Fail(
            FrqError::Reclaim(error),
        ),
        state.after(FrqEvent::GivenBack(false)).action() == FrqAction::Fail(
            FrqError::GiveBack(state.fate),
        ),
        state.left.len() > 1 ==> {
            &&& state.after(FrqEvent::Prepared(Ok(()))).action() == state.left[1]
            &&& state.after(FrqEvent::Advised).action() == state.left[1]
            &&& state.after(FrqEvent::GivenBack(true)).action() == state.left[1]
        },
        state.left.len() == 1 ==> state.after(FrqEvent::GivenBack(true)).action()
            == FrqAction::Pop,
        state.left.len() == 0 ==> state.action() == FrqAction::Pop,
        state.left.len() > 0 ==> state.action() == state.left[0],
{
}

/// Reports are handled only for a guest that took the feature of reporting, which is the sixth.
/// They go by what the device has; nothing is prepared or used at the start.
pub proof fn law_reports_need_their_feature(balloon: Balloon)
    ensures
        balloon.negotiated() <==> balloon.acked_features / 32 % 2 == 1,
        ({
            let session = balloon.session();
            &&& session.negotiated <==> balloon.acked_features / 32 % 2 == 1
            &&& session.platform == balloon.platform
            &&& session.has_reclaim_state == balloon.has_reclaim_state
            &&& session.has_remapper == balloon.has_remapper
            &&& !session.prepared && !session.have_used
        }),
{
    let acked = balloon.acked_features;
    assert((acked & 0x20 != 0) == (acked / 32 % 2 == 1)) by (bit_vector);
}

/// A read of the configuration gives the byte at each place that there is and leaves the buffer
/// as it was behind the end. A read that starts behind the end, or runs past the last address,
/// changes nothing.
pub proof fn law_configuration_is_read_in_place(
    config: Seq<u8>,
    offset: u64,
    data: Seq<u8>,
    at: int,
)
    requires
        0 <= at < data.len(),
    ensures
        config_read(config, offset, data).len() == data.len(),
        offset + data.len() <= u64::MAX && offset + at < config.len() ==> config_read(
            config,
            offset,
            data,
        )[at] == config[offset + at],
        offset + at >= config.len() || offset + data.len() > u64::MAX ==> config_read(
            config,
            offset,
            data,
        )[at] == data[at],
{
}

} // verus!

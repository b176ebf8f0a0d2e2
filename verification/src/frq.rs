//! The handling of free-page reports, step by step.
//!
//! The caller does what an action says, hands the reply back and is told the next action. The
//! pages of a report belong to the monitor only until its chain is given back to the guest, so
//! all that is done with them comes before that.
use crate::balloon::{
    coalesce_free_page_ranges, coalesced, law_merged_is_coalesced, merged, ReportChain,
};
use crate::guest_memory::GuestRange;
use crate::platform::HostPlatform;
use crate::reclaim::{ReclaimStateError, ReleaseOutcome};
use vstd::prelude::*;

verus! {

/// What became of a report before its chain is given back.
#[derive(Clone, Copy, Debug, PartialEq, Eq, Structural)]
pub enum ReportFate {
    /// The chain breaks off; nothing was done.
    Malformed,
    /// Reporting was not negotiated; nothing was done.
    Unnegotiated,
    /// Some descriptor has no host memory; nothing was done.
    Invalid,
    /// Its pages were released or advised free.
    Handled,
}

/// Why the handling of reports ended early.
#[derive(Clone, Copy, Debug, PartialEq, Eq, Structural)]
pub enum FrqError {
    /// The host's mappings could not be normalised, or a range could not be released.
    Reclaim(ReclaimStateError),
    /// The queue did not take a chain back.
    GiveBack(ReportFate),
}

impl FrqError {
    /// The text that is shown for the error. `host_words` is what the queue says of its error,
    /// or the host of the operating system's, where one is carried.
    pub open spec fn text(self, host_words: Seq<char>) -> Seq<char> {
        match self {
            FrqError::Reclaim(error) => error.text(host_words),
            FrqError::GiveBack(ReportFate::Malformed) =>
                "failed to acknowledge malformed report: "@ + host_words,
            FrqError::GiveBack(ReportFate::Unnegotiated) =>
                "failed to acknowledge unnegotiated report: "@ + host_words,
            FrqError::GiveBack(ReportFate::Invalid) => "failed to acknowledge invalid report: "@
                + host_words,
            FrqError::GiveBack(ReportFate::Handled) => "failed to add used report to queue: "@
                + host_words,
        }
    }

    /// The text that is shown for the error.
    pub fn message(self, host_words: &str) -> (result: String)
        ensures
            result@ == self.text(host_words@),
    {
        let mut text = match self {
            FrqError::Reclaim(error) => {
                return error.message(host_words);
            },
            FrqError::GiveBack(ReportFate::Malformed) =>
                String::from_str("failed to acknowledge malformed report: "),
            FrqError::GiveBack(ReportFate::Unnegotiated) =>
                String::from_str("failed to acknowledge unnegotiated report: "),
            FrqError::GiveBack(ReportFate::Invalid) =>
                String::from_str("failed to acknowledge invalid report: "),
            FrqError::GiveBack(ReportFate::Handled) =>
                String::from_str("failed to add used report to queue: "),
        };
        text.append(host_words);
        text
    }
}

/// A range of host memory that is advised free.
#[derive(Clone, Copy, Debug, PartialEq, Eq, Structural)]
pub struct AdviceTarget {
    pub host: u64,
    pub len: u32,
}

/// What is done next with the reporting queue.
#[derive(Clone, Copy, Debug, PartialEq, Eq, Structural)]
pub enum FrqAction {
    /// Take the next chain off the queue.
    Pop,
    /// Normalise the host's mappings.
    Prepare,
    /// Release a range through the reclaim state.
    Release(GuestRange),
    /// Find out where the descriptors of the chain lie in host memory.
    Resolve,
    /// Advise the host that a range of its memory is free.
    Advise(AdviceTarget),
    /// Give the chain back to the guest, with the number of bytes written to it.
    GiveBack { index: u16, len: u32 },
    /// Nothing waits any more; the guest is told where this says so.
    Done(bool),
    /// The handling failed.
    Fail(FrqError),
}

/// How an action went.
#[derive(Debug)]
pub enum FrqEvent {
    /// The queue is empty.
    Empty,
    /// The queue gave a chain.
    Chain(ReportChain),
    Prepared(Result<(), ReclaimStateError>),
    Released(Result<ReleaseOutcome, ReclaimStateError>),
    /// For each descriptor of the chain, where it lies in host memory, if it does.
    Resolved(Vec<Option<u64>>),
    Advised,
    /// Whether the queue took the chain.
    GivenBack(bool),
}

/// The part of the handling that lasts over several chains.
#[derive(Clone, Copy, Debug, PartialEq, Eq, Structural)]
pub struct FrqSession {
    pub platform: HostPlatform,
    pub negotiated: bool,
    pub has_reclaim_state: bool,
    pub has_remapper: bool,
    /// Host mappings were normalised in this session.
    pub prepared: bool,
    /// Some chain was taken off the queue.
    pub have_used: bool,
}

/// The chain is to be released through the reclaim state.
pub open spec fn releases(session: FrqSession, chain: ReportChain) -> bool {
    !chain.truncated && session.negotiated && session.platform == HostPlatform::Macos
        && session.has_reclaim_state
}

/// The session behind a chain.
pub open spec fn session_after(session: FrqSession, chain: ReportChain) -> FrqSession {
    FrqSession {
        prepared: session.prepared || (releases(session, chain) && session.has_remapper),
        have_used: true,
        ..session
    }
}

/// The releases of these ranges, in order.
pub open spec fn release_calls(ranges: Seq<GuestRange>) -> Seq<FrqAction> {
    Seq::new(ranges.len(), |i: int| FrqAction::Release(ranges[i]))
}

/// Every descriptor lies in host memory.
pub open spec fn all_resolved(descriptors: Seq<(u64, u32)>, hosts: Seq<Option<u64>>) -> bool {
    &&& hosts.len() == descriptors.len()
    &&& forall|i: int| 0 <= i < hosts.len() ==> (#[trigger] hosts[i]) is Some
}

/// The advice on these descriptors, in order, or none where one has no host memory.
pub open spec fn advice_calls(
    descriptors: Seq<(u64, u32)>,
    hosts: Seq<Option<u64>>,
) -> Seq<FrqAction> {
    if all_resolved(descriptors, hosts) {
        Seq::new(
            hosts.len(),
            |i: int| FrqAction::Advise(AdviceTarget { host: hosts[i]->0, len: descriptors[i].1 }),
        )
    } else {
        seq![]
    }
}

/// All that is done with a chain once it was taken off the queue. It is given back at the end
/// and nowhere else. `hosts` is where its descriptors turned out to lie.
pub open spec fn chain_calls(
    session: FrqSession,
    chain: ReportChain,
    hosts: Seq<Option<u64>>,
) -> Seq<FrqAction> {
    let before = if chain.truncated || !session.negotiated {
        seq![]
    } else if session.platform != HostPlatform::Macos {
        seq![FrqAction::Resolve] + advice_calls(chain.descriptors@, hosts)
    } else if !session.has_reclaim_state {
        seq![]
    } else if session.has_remapper && !session.prepared {
        seq![FrqAction::Prepare] + release_calls(merged(chain.descriptors@))
    } else {
        release_calls(merged(chain.descriptors@))
    };
    before.push(FrqAction::GiveBack { index: chain.index, len: 0 })
}

/// What becomes of a chain, as far as it alone and the session show it.
pub open spec fn fate_of(session: FrqSession, chain: ReportChain) -> ReportFate {
    if chain.truncated {
        ReportFate::Malformed
    } else if !session.negotiated {
        ReportFate::Unnegotiated
    } else {
        ReportFate::Handled
    }
}

/// The state of the handling.
#[verifier::ext_equal]
pub struct FrqState {
    pub session: FrqSession,
    /// What is left to be done with the chain in hand.
    pub left: Seq<FrqAction>,
    pub fate: ReportFate,
    /// The descriptors of the chain in hand.
    pub descriptors: Seq<(u64, u32)>,
    /// How the handling ended.
    pub end: Option<Result<bool, FrqError>>,
}

impl FrqState {
    /// Nothing was done yet.
    pub open spec fn start(session: FrqSession) -> FrqState {
        FrqState {
            session,
            left: seq![],
            fate: ReportFate::Handled,
            descriptors: seq![],
            end: None,
        }
    }

    /// What is done next.
    pub open spec fn action(self) -> FrqAction {
        match self.end {
            Some(Ok(used)) => FrqAction::Done(used),
            Some(Err(error)) => FrqAction::Fail(error),
            None => if self.left.len() == 0 {
                FrqAction::Pop
            } else {
                self.left[0]
            },
        }
    }

    /// The event is a reply to what is done next.
    pub open spec fn answers(self, event: FrqEvent) -> bool {
        match self.action() {
            FrqAction::Pop => event is Empty || event is Chain,
            FrqAction::Prepare => event is Prepared,
            FrqAction::Release(_) => event is Released,
            FrqAction::Resolve => event matches FrqEvent::Resolved(hosts) && hosts@.len()
                == self.descriptors.len(),
            FrqAction::Advise(_) => event is Advised,
            FrqAction::GiveBack { .. } => event is GivenBack,
            FrqAction::Done(_) => false,
            FrqAction::Fail(_) => false,
        }
    }

    pub open spec fn ended(self, end: Result<bool, FrqError>) -> FrqState {
        FrqState { end: Some(end), ..self }
    }

    /// The state without the action that was just done.
    pub open spec fn advanced(self) -> FrqState {
        FrqState { left: self.left.skip(1), ..self }
    }

    /// The state behind a reply.
    pub open spec fn after(self, event: FrqEvent) -> FrqState {
        match event {
            FrqEvent::Empty => self.ended(Ok(self.session.have_used)),
            FrqEvent::Chain(chain) => FrqState {
                session: session_after(self.session, chain),
                left: chain_calls(self.session, chain, seq![]),
                fate: fate_of(self.session, chain),
                descriptors: chain.descriptors@,
                ..self
            },
            FrqEvent::Prepared(Ok(_)) => self.advanced(),
            FrqEvent::Prepared(Err(error)) => self.ended(Err(FrqError::Reclaim(error))),
            FrqEvent::Released(Ok(_)) => self.advanced(),
            FrqEvent::Released(Err(error)) => self.ended(Err(FrqError::Reclaim(error))),
            FrqEvent::Resolved(hosts) => FrqState {
                left: advice_calls(self.descriptors, hosts@) + self.left.skip(1),
                fate: if all_resolved(self.descriptors, hosts@) {
                    self.fate
                } else {
                    ReportFate::Invalid
                },
                ..self
            },
            FrqEvent::Advised => self.advanced(),
            FrqEvent::GivenBack(true) => self.advanced(),
            FrqEvent::GivenBack(false) => self.ended(Err(FrqError::GiveBack(self.fate))),
        }
    }
}

/// The handling of the reports that wait in the queue.
#[derive(Debug)]
pub struct FrqRun {
    session: FrqSession,
    left: Vec<FrqAction>,
    /// How many of them are done.
    done: usize,
    fate: ReportFate,
    descriptors: Vec<(u64, u32)>,
    end: Option<Result<bool, FrqError>>,
}

impl View for FrqRun {
    type V = FrqState;

    closed spec fn view(&self) -> FrqState {
        FrqState {
            session: self.session,
            left: self.left@.skip(self.done as int),
            fate: self.fate,
            descriptors: self.descriptors@,
            end: self.end,
        }
    }
}

impl FrqRun {
    pub closed spec fn wf(self) -> bool {
        self.done <= self.left@.len()
    }

    /// A handling in which nothing was done yet.
    pub fn new(session: FrqSession) -> (run: FrqRun)
        ensures
            run.wf(),
            run@ == FrqState::start(session),
    {
        FrqRun {
            session,
            left: Vec::new(),
            done: 0,
            fate: ReportFate::Handled,
            descriptors: Vec::new(),
            end: None,
        }
    }

    /// What is done next.
    pub fn action(&self) -> (action: FrqAction)
        requires
            self.wf(),
        ensures
            action == self@.action(),
    {
        match self.end {
            Some(Ok(used)) => FrqAction::Done(used),
            Some(Err(error)) => FrqAction::Fail(error),
            None => if self.done == self.left.len() {
                FrqAction::Pop
            } else {
                self.left[self.done]
            },
        }
    }

    /// The descriptors of the chain in hand.
    pub fn descriptors(&self) -> (descriptors: &Vec<(u64, u32)>)
        ensures
            descriptors@ == self@.descriptors,
    {
        &self.descriptors
    }

    /// Takes up how the action went, and says what is done next.
    pub fn step(&mut self, event: FrqEvent) -> (action: FrqAction)
        requires
            old(self).wf(),
            old(self)@.answers(event),
        ensures
            final(self).wf(),
            final(self)@ == old(self)@.after(event),
            action == final(self)@.action(),
    {
        match event {
            FrqEvent::Empty => self.end = Some(Ok(self.session.have_used)),
            FrqEvent::Chain(chain) => self.take_up(chain),
            FrqEvent::Prepared(Ok(_)) => self.advance(),
            FrqEvent::Prepared(Err(error)) => self.end = Some(Err(FrqError::Reclaim(error))),
            FrqEvent::Released(Ok(_)) => self.advance(),
            FrqEvent::Released(Err(error)) => self.end = Some(Err(FrqError::Reclaim(error))),
            FrqEvent::Resolved(hosts) => self.resolve(&hosts),
            FrqEvent::Advised => self.advance(),
            FrqEvent::GivenBack(true) => self.advance(),
            FrqEvent::GivenBack(false) => self.end = Some(Err(FrqError::GiveBack(self.fate))),
        }
        self.action()
    }

    fn advance(&mut self)
        requires
            old(self).wf(),
            old(self)@.left.len() > 0,
        ensures
            final(self).wf(),
            final(self)@ == old(self)@.advanced(),
    {
        assert(self.done < self.left.len());
        self.done = self.done + 1;
        assert(self@.left =~= old(self)@.left.skip(1));
    }

    fn take_up(&mut self, chain: ReportChain)
        requires
            old(self).wf(),
        ensures
            final(self).wf(),
            final(self)@ == old(self)@.after(FrqEvent::Chain(chain)),
    {
        let ReportChain { index, descriptors, truncated } = chain;
        let mut left: Vec<FrqAction> = Vec::new();
        if truncated {
            self.fate = ReportFate::Malformed;
        } else if !self.session.negotiated {
            self.fate = ReportFate::Unnegotiated;
        } else {
            self.fate = ReportFate::Handled;
            if self.session.platform != HostPlatform::Macos {
                left.push(FrqAction::Resolve);
                if descriptors.len() == 0 {
                    assert(advice_calls(descriptors@, seq![]) =~= seq![]);
                }
            } else if self.session.has_reclaim_state {
                if self.session.has_remapper && !self.session.prepared {
                    self.session.prepared = true;
                    left.push(FrqAction::Prepare);
                }
                let ranges = coalesce_free_page_ranges(&descriptors);
                proof {
                    law_merged_is_coalesced(descriptors@);
                }
                push_releases(&mut left, &ranges);
            }
        }
        left.push(FrqAction::GiveBack { index, len: 0 });
        self.session.have_used = true;
        self.left = left;
        self.done = 0;
        self.descriptors = descriptors;
        assert(self@.left =~= chain_calls(old(self)@.session, chain, seq![]));
    }

    fn resolve(&mut self, hosts: &Vec<Option<u64>>)
        requires
            old(self).wf(),
            old(self)@.left.len() > 0,
            hosts@.len() == old(self)@.descriptors.len(),
        ensures
            final(self).wf(),
            final(self)@ == old(self)@.after(FrqEvent::Resolved(*hosts)),
    {
        let mut left: Vec<FrqAction> = Vec::new();
        let resolved: bool = push_advice(&mut left, &self.descriptors, hosts);
        if !resolved {
            self.fate = ReportFate::Invalid;
        }
        assert(self.done < self.left.len());
        let mut i: usize = self.done + 1;
        while i < self.left.len()
            invariant
                self.done < i <= self.left@.len(),
                left@ == advice_calls(self.descriptors@, hosts@) + self.left@.subrange(
                    self.done + 1,
                    i as int,
                ),
            decreases self.left.len() - i,
        {
            left.push(self.left[i]);
            i = i + 1;
            assert(left@ =~= advice_calls(self.descriptors@, hosts@) + self.left@.subrange(
                self.done + 1,
                i as int,
            ));
        }
        self.left = left;
        self.done = 0;
        assert(self@.left =~= old(self)@.after(FrqEvent::Resolved(*hosts)).left);
    }
}

/// Appends the releases of the ranges.
fn push_releases(left: &mut Vec<FrqAction>, ranges: &Vec<GuestRange>)
    ensures
        final(left)@ == old(left)@ + release_calls(ranges@),
{
    let mut i: usize = 0;
    while i < ranges.len()
        invariant
            i <= ranges@.len(),
            left@ == old(left)@ + release_calls(ranges@).take(i as int),
        decreases ranges.len() - i,
    {
        left.push(FrqAction::Release(ranges[i]));
        i = i + 1;
        assert(left@ =~= old(left)@ + release_calls(ranges@).take(i as int));
    }
    assert(release_calls(ranges@).take(i as int) =~= release_calls(ranges@));
}

/// Appends the advice on the descriptors where every one lies in host memory, and says whether
/// it does.
fn push_advice(
    left: &mut Vec<FrqAction>,
    descriptors: &Vec<(u64, u32)>,
    hosts: &Vec<Option<u64>>,
) -> (resolved: bool)
    requires
        hosts@.len() == descriptors@.len(),
        old(left)@.len() == 0,
    ensures
        resolved == all_resolved(descriptors@, hosts@),
        final(left)@ == advice_calls(descriptors@, hosts@),
{
    let mut i: usize = 0;
    while i < hosts.len()
        invariant
            i <= hosts@.len(),
            hosts@.len() == descriptors@.len(),
            left@.len() == i,
            forall|k: int| 0 <= k < i ==> (#[trigger] hosts@[k]) is Some,
            forall|k: int|
                0 <= k < i ==> #[trigger] left@[k] == FrqAction::Advise(
                    AdviceTarget { host: hosts@[k]->0, len: descriptors@[k].1 },
                ),
        decreases hosts.len() - i,
    {
        match hosts[i] {
            None => {
                assert(hosts@[i as int] is None);
                left.clear();
                return false;
            },
            Some(host) => {
                let (_, len) = descriptors[i];
                left.push(FrqAction::Advise(AdviceTarget { host, len }));
            },
        }
        i = i + 1;
    }
    assert(left@ =~= advice_calls(descriptors@, hosts@));
    true
}

/// A chain that was taken off the queue, and where its descriptors turned out to lie in host
/// memory, once that was asked.
#[verifier::ext_equal]
pub struct Report {
    pub chain: ReportChain,
    pub hosts: Seq<Option<u64>>,
}

/// The reports among the replies.
pub open spec fn reports(events: Seq<FrqEvent>) -> Seq<Report>
    decreases events.len(),
{
    if events.len() == 0 {
        seq![]
    } else {
        let before = reports(events.drop_last());
        match events.last() {
            FrqEvent::Chain(chain) => before.push(Report { chain, hosts: seq![] }),
            FrqEvent::Resolved(hosts) => before.drop_last().push(
                Report { chain: before.last().chain, hosts: hosts@ },
            ),
            _ => before,
        }
    }
}

/// The state behind these replies.
pub open spec fn state_after(session: FrqSession, events: Seq<FrqEvent>) -> FrqState
    decreases events.len(),
{
    if events.len() == 0 {
        FrqState::start(session)
    } else {
        state_after(session, events.drop_last()).after(events.last())
    }
}

/// Each reply is one to the action that was asked for.
pub open spec fn fits(session: FrqSession, events: Seq<FrqEvent>) -> bool
    decreases events.len(),
{
    events.len() > 0 ==> {
        &&& fits(session, events.drop_last())
        &&& state_after(session, events.drop_last()).answers(events.last())
    }
}

/// The actions that these replies belong to.
pub open spec fn actions(session: FrqSession, events: Seq<FrqEvent>) -> Seq<FrqAction>
    decreases events.len(),
{
    if events.len() == 0 {
        seq![]
    } else {
        actions(session, events.drop_last()).push(
            state_after(session, events.drop_last()).action(),
        )
    }
}

/// The session behind these reports.
pub open spec fn session_behind(session: FrqSession, done: Seq<Report>) -> FrqSession
    decreases done.len(),
{
    if done.len() == 0 {
        session
    } else {
        session_after(session_behind(session, done.drop_last()), done.last().chain)
    }
}

/// All that is done with one report in full: its chain is taken off the queue, what it calls
/// for is done, and it is given back.
pub open spec fn report_calls(session: FrqSession, report: Report) -> Seq<FrqAction> {
    seq![FrqAction::Pop] + chain_calls(session, report.chain, report.hosts)
}

/// All that is done with these reports, one in full after the other.
pub open spec fn all_calls(session: FrqSession, done: Seq<Report>) -> Seq<FrqAction>
    decreases done.len(),
{
    if done.len() == 0 {
        seq![]
    } else {
        all_calls(session, done.drop_last()) + report_calls(
            session_behind(session, done.drop_last()),
            done.last(),
        )
    }
}

/// At every moment, whatever was replied, the actions so far and those still to be done with
/// the chain in hand are all that the reports call for, one report in full after the other.
/// So each chain is given back once, in order, with length zero, and after all that is done
/// with its pages. At the end nothing is left out, and the guest is told if there was any
/// report. A failure ends the handling at once: of what the last report calls for only the
/// first actions were asked for, and giving its chain back is among them only where that is
/// what failed.
pub proof fn law_reports_are_handled_in_order(session: FrqSession, events: Seq<FrqEvent>)
    requires
        fits(session, events),
        !session.have_used,
    ensures
        ({
            let state = state_after(session, events);
            let asked = actions(session, events);
            let seen = reports(events);
            let calls = all_calls(session, seen);
            match state.end {
                None => asked + state.left == calls,
                Some(Ok(used)) => asked == calls.push(FrqAction::Pop) && used == (seen.len() > 0),
                Some(Err(error)) => {
                    &&& seen.len() > 0
                    &&& all_calls(session, seen.drop_last()).len() < asked.len() <= calls.len()
                    &&& asked == calls.take(asked.len() as int)
                    &&& asked.len() == calls.len() <==> error is GiveBack
                },
            }
        }),
{
    lemma_run(session, events);
}

/// What the law needs to be carried from reply to reply.
spec fn in_order(
    session: FrqSession,
    state: FrqState,
    asked: Seq<FrqAction>,
    seen: Seq<Report>,
) -> bool {
    let calls = all_calls(session, seen);
    let last = report_calls(session_behind(session, seen.drop_last()), seen.last());
    &&& state.session == session_behind(session, seen)
    &&& state.session.have_used == (seen.len() > 0)
    &&& seen.len() == 0 ==> state.left.len() == 0
    &&& seen.len() > 0 ==> {
        &&& state.descriptors == seen.last().chain.descriptors@
        &&& state.left.len() < last.len()
        &&& state.left.len() > 0 && state.left[0] is Resolve ==> seen.last().hosts.len() == 0
    }
    &&& match state.end {
        None => asked + state.left == calls,
        Some(Ok(used)) => asked == calls.push(FrqAction::Pop) && used == (seen.len() > 0),
        Some(Err(error)) => {
            &&& seen.len() > 0
            &&& calls.len() - last.len() < asked.len() <= calls.len()
            &&& asked == calls.take(asked.len() as int)
            &&& asked.len() == calls.len() <==> error is GiveBack
        },
    }
}

proof fn lemma_run(session: FrqSession, events: Seq<FrqEvent>)
    requires
        fits(session, events),
        !session.have_used,
    ensures
        in_order(
            session,
            state_after(session, events),
            actions(session, events),
            reports(events),
        ),
    decreases events.len(),
{
    if events.len() > 0 {
        let before = events.drop_last();
        lemma_run(session, before);
        let state = state_after(session, before);
        let asked = actions(session, before);
        let seen = reports(before);
        match events.last() {
            FrqEvent::Empty => {
                lemma_nothing_in_hand(session, state, asked, seen);
                assert(asked =~= all_calls(session, seen));
            },
            FrqEvent::Chain(chain) => lemma_taken_up(session, state, asked, seen, chain),
            FrqEvent::Resolved(hosts) => lemma_resolved(session, state, asked, seen, hosts),
            _ => lemma_done(session, state, asked, seen, events.last()),
        }
    }
}

/// A chain is taken off the queue only when none is in hand.
proof fn lemma_nothing_in_hand(
    session: FrqSession,
    state: FrqState,
    asked: Seq<FrqAction>,
    seen: Seq<Report>,
)
    requires
        in_order(session, state, asked, seen),
        state.end is None,
        state.action() is Pop,
    ensures
        state.left.len() == 0,
{
    if state.left.len() > 0 {
        let front = all_calls(session, seen.drop_last());
        let behind = session_behind(session, seen.drop_last());
        let last = report_calls(behind, seen.last());
        let at = asked.len() - front.len();
        assert((asked + state.left)[asked.len() as int] == state.left[0]);
        assert(last[at] == state.left[0]);
        lemma_taken_off_first(behind, seen.last(), at);
    }
}

proof fn lemma_taken_up(
    session: FrqSession,
    state: FrqState,
    asked: Seq<FrqAction>,
    seen: Seq<Report>,
    chain: ReportChain,
)
    requires
        in_order(session, state, asked, seen),
        state.answers(FrqEvent::Chain(chain)),
    ensures
        in_order(
            session,
            state.after(FrqEvent::Chain(chain)),
            asked.push(FrqAction::Pop),
            seen.push(Report { chain, hosts: seq![] }),
        ),
{
    let report = Report { chain, hosts: seq![] };
    let now = seen.push(report);
    let next = state.after(FrqEvent::Chain(chain));
    assert(now.drop_last() =~= seen);
    lemma_nothing_in_hand(session, state, asked, seen);
    assert(asked =~= all_calls(session, seen));
    assert(asked.push(FrqAction::Pop) + next.left =~= asked + report_calls(state.session, report));
}

proof fn lemma_resolved(
    session: FrqSession,
    state: FrqState,
    asked: Seq<FrqAction>,
    seen: Seq<Report>,
    hosts: Vec<Option<u64>>,
)
    requires
        in_order(session, state, asked, seen),
        state.answers(FrqEvent::Resolved(hosts)),
    ensures
        in_order(
            session,
            state.after(FrqEvent::Resolved(hosts)),
            asked.push(state.action()),
            seen.drop_last().push(Report { chain: seen.last().chain, hosts: hosts@ }),
        ),
{
    let front = all_calls(session, seen.drop_last());
    let behind = session_behind(session, seen.drop_last());
    let last = report_calls(behind, seen.last());
    let at = asked.len() - front.len();
    let report = Report { chain: seen.last().chain, hosts: hosts@ };
    let now = seen.drop_last().push(report);
    let next = state.after(FrqEvent::Resolved(hosts));
    assert((asked + state.left)[asked.len() as int] == state.left[0]);
    assert(last[at] == state.left[0]);
    lemma_resolve_is_first(behind, seen.last(), at);
    assert(advice_calls(state.descriptors, seen.last().hosts) =~= seq![]);
    assert(asked =~= front.push(FrqAction::Pop)) by {
        assert(asked =~= (front + last).take(asked.len() as int));
    }
    assert(state.left =~= last.skip(1)) by {
        assert(state.left =~= (front + last).skip(asked.len() as int));
    }
    assert(now.drop_last() =~= seen.drop_last());
    let back = FrqAction::GiveBack { index: report.chain.index, len: 0 };
    assert(state.left =~= seq![FrqAction::Resolve, back]);
    assert(next.left =~= advice_calls(state.descriptors, hosts@).push(back));
    assert(report_calls(behind, report) =~= seq![FrqAction::Pop, FrqAction::Resolve] + next.left);
    assert(asked.push(FrqAction::Resolve) + next.left =~= front + report_calls(behind, report));
}

proof fn lemma_done(
    session: FrqSession,
    state: FrqState,
    asked: Seq<FrqAction>,
    seen: Seq<Report>,
    event: FrqEvent,
)
    requires
        in_order(session, state, asked, seen),
        state.answers(event),
        !(event is Empty || event is Chain || event is Resolved),
    ensures
        in_order(session, state.after(event), asked.push(state.action()), seen),
{
    let front = all_calls(session, seen.drop_last());
    let behind = session_behind(session, seen.drop_last());
    let last = report_calls(behind, seen.last());
    let calls = front + last;
    let at = asked.len() - front.len();
    let next = state.after(event);
    let more = asked.push(state.action());
    assert(state.left.len() > 0);
    assert(calls == asked + state.left);
    assert(last[at] == calls[asked.len() as int]);
    assert(last[at] == state.left[0]);
    law_chain_is_given_back_last(behind, seen.last(), at);
    assert(more =~= calls.take(asked.len() as int + 1));
    if next.end is None {
        assert(more + next.left =~= calls);
        if next.left.len() > 0 && next.left[0] is Resolve {
            assert(last[at + 1] == calls[asked.len() as int + 1]);
            lemma_resolve_is_first(behind, seen.last(), at + 1);
        }
    }
}

/// A chain is taken off the queue before all else that is done with it.
proof fn lemma_taken_off_first(session: FrqSession, report: Report, at: int)
    requires
        0 <= at < report_calls(session, report).len(),
        report_calls(session, report)[at] is Pop,
    ensures
        at == 0,
{
}

/// A chain's host memory is asked for right after the chain was taken off the queue.
proof fn lemma_resolve_is_first(session: FrqSession, report: Report, at: int)
    requires
        0 < at < report_calls(session, report).len(),
        report_calls(session, report)[at] is Resolve,
    ensures
        at == 1,
        !report.chain.truncated,
        session.negotiated,
        session.platform != HostPlatform::Macos,
{
}

/// A chain is given back at the end of what is done with it, and nowhere else.
pub proof fn law_chain_is_given_back_last(session: FrqSession, report: Report, at: int)
    requires
        0 <= at < report_calls(session, report).len(),
    ensures
        report_calls(session, report)[at] is GiveBack <==> at == report_calls(session, report).len()
            - 1,
{
}

/// Where the device has a reclaim state, a whole chain of a guest that negotiated reporting has
/// the ranges that its descriptors merge to released, each once and in order, and nothing else.
pub proof fn law_merged_ranges_are_released(
    session: FrqSession,
    chain: ReportChain,
    hosts: Seq<Option<u64>>,
    runs: Seq<GuestRange>,
)
    requires
        releases(session, chain),
        coalesced(chain.descriptors@, runs),
    ensures
        ({
            let prepare = if session.has_remapper && !session.prepared {
                seq![FrqAction::Prepare]
            } else {
                seq![]
            };
            chain_calls(session, chain, hosts) == (prepare + release_calls(runs)).push(
                FrqAction::GiveBack { index: chain.index, len: 0 },
            )
        }),
{
    law_merged_is_coalesced(chain.descriptors@);
    assert(seq![] + release_calls(runs) =~= release_calls(runs));
}

/// A chain that breaks off is given back as it is.
pub proof fn law_malformed_chains_are_left_alone(
    session: FrqSession,
    chain: ReportChain,
    hosts: Seq<Option<u64>>,
)
    requires
        chain.truncated,
    ensures
        chain_calls(session, chain, hosts) == seq![
            FrqAction::GiveBack { index: chain.index, len: 0 },
        ],
{
    assert(chain_calls(session, chain, hosts) =~= seq![
        FrqAction::GiveBack { index: chain.index, len: 0 },
    ]);
}

/// As long as the guest did not negotiate reporting, nothing is done but to take chains off the
/// queue and to give them back.
pub proof fn law_unnegotiated_reports_are_left_alone(session: FrqSession, events: Seq<FrqEvent>)
    requires
        fits(session, events),
        !session.negotiated,
    ensures
        forall|i: int|
            0 <= i < actions(session, events).len() ==> (#[trigger] actions(
                session,
                events,
            )[i]) is Pop || actions(session, events)[i] is GiveBack,
{
    lemma_unnegotiated(session, events);
}

proof fn lemma_unnegotiated(session: FrqSession, events: Seq<FrqEvent>)
    requires
        fits(session, events),
        !session.negotiated,
    ensures
        !state_after(session, events).session.negotiated,
        forall|i: int|
            0 <= i < state_after(session, events).left.len() ==> (#[trigger] state_after(
                session,
                events,
            ).left[i]) is GiveBack,
        forall|i: int|
            0 <= i < actions(session, events).len() ==> (#[trigger] actions(
                session,
                events,
            )[i]) is Pop || actions(session, events)[i] is GiveBack,
    decreases events.len(),
{
    if events.len() > 0 {
        let before = events.drop_last();
        lemma_unnegotiated(session, before);
        let state = state_after(session, before);
        let next = state_after(session, events);
        assert(state.end is None);
        assert forall|i: int| 0 <= i < next.left.len() implies (
        #[trigger] next.left[i]) is GiveBack by {
            match events.last() {
                FrqEvent::Chain(chain) => {},
                FrqEvent::Resolved(_) => {
                    assert(state.left[0] is GiveBack);
                },
                _ => {
                    if next.left != state.left {
                        assert(next.left[i] == state.left[i + 1]);
                    } else {
                        assert(state.left[i] is GiveBack);
                    }
                },
            }
        }
        if state.left.len() > 0 {
            assert(state.left[0] is GiveBack);
        }
    }
}

} // verus!

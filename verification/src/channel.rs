//! Remote command execution over one transient channel of an established
//! session: open the channel, request execution, collect the emitted
//! output until the remote side closes, and only then read the exit status.
//!
//! The transport performs each step and reports what happened as a
//! [`ChannelEvent`]; the machine here decides what the run returned.  The
//! ordering rule of the exec protocol is part of the machine itself: a
//! status reported before the channel closed is refused, so a successful
//! run can only ever hold a status read after the close was observed —
//! see [`lemma_status_read_after_close`].

use vstd::prelude::*;

use crate::errors::ClientError;

verus! {

/// What one command produced: the text the remote side emitted, and the
/// numeric exit status read after the channel closed.
#[derive(Debug)]
pub struct ExecutionResult {
    pub output: String,
    pub status: i32,
}

/// What the transport reports while one command runs on a channel.
#[derive(Clone, Debug, PartialEq)]
pub enum ChannelEvent {
    /// The execution channel is open.
    Opened,
    /// The session refused to open a channel.
    OpenFailed,
    /// The remote side accepted the execution request.
    ExecOk,
    /// The remote side refused the execution request.
    ExecFailed,
    /// Bytes emitted on the channel.
    Data(Vec<u8>),
    /// The channel is fully closed, in both directions.
    Closed,
    /// The numeric exit status, available only after the close.
    ExitStatus(i32),
}

/// How far the run has come.
#[derive(Clone, Copy, Debug, PartialEq, Eq, Structural)]
pub enum ExecStage {
    /// Waiting for the channel to open.
    Opening,
    /// Waiting for the execution request to be accepted.
    Executing,
    /// Collecting output until the channel closes.
    Receiving,
    /// The channel closed; waiting for the exit status.
    AwaitingStatus,
    /// The run finished: output and status are complete.
    Done,
    /// The run failed at the channel level.
    Failed,
}

/// The machine's state: the stage reached, the output bytes collected so
/// far, and the exit status once it was read.
pub struct ChannelState {
    pub stage: ExecStage,
    pub buf: Seq<u8>,
    pub status: int,
}

/// The state in which a run begins.
pub open spec fn channel_init() -> ChannelState {
    ChannelState { stage: ExecStage::Opening, buf: Seq::empty(), status: 0 }
}

/// One step of a run.  Each stage accepts exactly the reports valid there;
/// in particular a status reported while the channel is still open is a
/// protocol violation and fails the run.  `Done` and `Failed` absorb
/// further events.
pub open spec fn channel_step(s: ChannelState, e: ChannelEvent) -> ChannelState {
    match s.stage {
        ExecStage::Opening => match e {
            ChannelEvent::Opened => ChannelState { stage: ExecStage::Executing, ..s },
            _ => ChannelState { stage: ExecStage::Failed, ..s },
        },
        ExecStage::Executing => match e {
            ChannelEvent::ExecOk => ChannelState { stage: ExecStage::Receiving, ..s },
            _ => ChannelState { stage: ExecStage::Failed, ..s },
        },
        ExecStage::Receiving => match e {
            ChannelEvent::Data(d) => ChannelState { buf: s.buf + d@, ..s },
            ChannelEvent::Closed => ChannelState { stage: ExecStage::AwaitingStatus, ..s },
            _ => ChannelState { stage: ExecStage::Failed, ..s },
        },
        ExecStage::AwaitingStatus => match e {
            ChannelEvent::ExitStatus(n) => ChannelState {
                stage: ExecStage::Done,
                status: n as int,
                ..s
            },
            _ => ChannelState { stage: ExecStage::Failed, ..s },
        },
        ExecStage::Done => s,
        ExecStage::Failed => s,
    }
}

/// The state after feeding the machine every event in turn, starting from `s`.
pub open spec fn channel_fold_from(s: ChannelState, events: Seq<ChannelEvent>) -> ChannelState
    decreases events.len(),
{
    if events.len() == 0 {
        s
    } else {
        channel_fold_from(channel_step(s, events.first()), events.drop_first())
    }
}

/// What a transcript of transport reports yields for one run: the decoded
/// output text and the exit status; a decode failure where the collected
/// bytes are not valid text; and a channel failure where the run never
/// completed — it failed, was cut short, or violated the protocol's order.
pub open spec fn channel_outcome(events: Seq<ChannelEvent>) -> Result<
    (Seq<char>, int),
    ClientError,
> {
    let s = channel_fold_from(channel_init(), events);
    if s.stage is Done {
        if vstd::utf8::valid_utf8(s.buf) {
            Ok((vstd::utf8::decode_utf8(s.buf), s.status))
        } else {
            Err(ClientError::Decode)
        }
    } else {
        Err(ClientError::Channel)
    }
}

/// Relies on `String::from_utf8`: it returns `Ok` exactly when the bytes
/// are valid UTF-8, and then the string's characters are their decoding —
/// the reading that `vstd::utf8` specifies.
#[verifier::external_body]
fn bytes_to_string(bytes: Vec<u8>) -> (r: Option<String>)
    ensures
        r is Some <==> vstd::utf8::valid_utf8(bytes@),
        r matches Some(s) ==> s@ == vstd::utf8::decode_utf8(bytes@),
{
    match String::from_utf8(bytes) {
        Ok(s) => Some(s),
        Err(_) => None,
    }
}

/// Copy the reported bytes onto the collected output.
fn append_bytes(buf: &mut Vec<u8>, d: &Vec<u8>)
    ensures
        final(buf)@ == old(buf)@ + d@,
{
    let ghost before = buf@;
    let n = d.len();
    let mut j: usize = 0;
    while j < n
        invariant
            n == d.len(),
            0 <= j <= n,
            buf@ == before + d@.take(j as int),
        decreases n - j,
    {
        buf.push(d[j]);
        proof {
            assert(d@.take(j as int).push(d@[j as int]) =~= d@.take(j as int + 1));
        }
        j += 1;
    }
    proof {
        assert(d@.take(n as int) =~= d@);
    }
}

/// Run one command over a whole transcript of transport reports: fold the
/// machine over the events, then decode the collected output.
#[verifier::loop_isolation(false)]
pub fn run_events(events: &Vec<ChannelEvent>) -> (r: Result<ExecutionResult, ClientError>)
    ensures
        channel_outcome(events@) matches Ok(p) ==> (r matches Ok(res) && res.output@ == p.0
            && res.status as int == p.1),
        channel_outcome(events@) matches Err(e) ==> (r matches Err(e2) && e2 == e),
{
    proof {
        assert(events@.skip(0) =~= events@);
    }
    let mut stage = ExecStage::Opening;
    let mut buf: Vec<u8> = Vec::new();
    let mut status: i32 = 0;
    let n = events.len();
    let mut i: usize = 0;
    while i < n
        invariant
            0 <= i <= n,
            channel_fold_from(
                ChannelState { stage: stage, buf: buf@, status: status as int },
                events@.skip(i as int),
            ) == channel_fold_from(channel_init(), events@),
        decreases n - i,
    {
        proof {
            assert(events@.skip(i as int).first() == events@[i as int]);
            assert(events@.skip(i as int).drop_first() =~= events@.skip(i as int + 1));
        }
        match stage {
            ExecStage::Opening => match &events[i] {
                ChannelEvent::Opened => {
                    stage = ExecStage::Executing;
                },
                _ => {
                    stage = ExecStage::Failed;
                },
            },
            ExecStage::Executing => match &events[i] {
                ChannelEvent::ExecOk => {
                    stage = ExecStage::Receiving;
                },
                _ => {
                    stage = ExecStage::Failed;
                },
            },
            ExecStage::Receiving => match &events[i] {
                ChannelEvent::Data(d) => {
                    append_bytes(&mut buf, d);
                },
                ChannelEvent::Closed => {
                    stage = ExecStage::AwaitingStatus;
                },
                _ => {
                    stage = ExecStage::Failed;
                },
            },
            ExecStage::AwaitingStatus => match &events[i] {
                ChannelEvent::ExitStatus(code) => {
                    stage = ExecStage::Done;
                    status = *code;
                },
                _ => {
                    stage = ExecStage::Failed;
                },
            },
            ExecStage::Done => {},
            ExecStage::Failed => {},
        }
        i += 1;
    }
    proof {
        assert(events@.skip(n as int) =~= Seq::<ChannelEvent>::empty());
    }
    match stage {
        ExecStage::Done => match bytes_to_string(buf) {
            Some(output) => Ok(ExecutionResult { output, status }),
            None => Err(ClientError::Decode),
        },
        _ => Err(ClientError::Channel),
    }
}

/// `Failed` absorbs: once a run has failed, no later report changes it.
pub proof fn lemma_channel_failed_absorbs(s: ChannelState, events: Seq<ChannelEvent>)
    requires
        s.stage is Failed,
    ensures
        channel_fold_from(s, events) == s,
    decreases events.len(),
{
    if events.len() > 0 {
        lemma_channel_failed_absorbs(channel_step(s, events.first()), events.drop_first());
    }
}

/// `Done` absorbs: once a run has finished, no later report changes it.
pub proof fn lemma_channel_done_absorbs(s: ChannelState, events: Seq<ChannelEvent>)
    requires
        s.stage is Done,
    ensures
        channel_fold_from(s, events) == s,
    decreases events.len(),
{
    if events.len() > 0 {
        lemma_channel_done_absorbs(channel_step(s, events.first()), events.drop_first());
    }
}

/// There is a close at `i` and, strictly later, the status the run
/// finished with at `j`.
pub open spec fn close_precedes_status(events: Seq<ChannelEvent>, status: int) -> bool {
    exists|i: int, j: int|
        #![trigger events[i], events[j]]
        0 <= i < j < events.len() && events[i] is Closed && (events[j]
            matches ChannelEvent::ExitStatus(n) && n as int == status)
}

proof fn lemma_status_from_await(s: ChannelState, events: Seq<ChannelEvent>)
    requires
        s.stage is AwaitingStatus,
        channel_fold_from(s, events).stage is Done,
    ensures
        exists|j: int|
            0 <= j < events.len() && ((#[trigger] events[j]) matches ChannelEvent::ExitStatus(n)
                && n as int == channel_fold_from(s, events).status),
    decreases events.len(),
{
    let s1 = channel_step(s, events.first());
    if s1.stage is Done {
        lemma_channel_done_absorbs(s1, events.drop_first());
        assert(events[0] matches ChannelEvent::ExitStatus(n) && n as int == channel_fold_from(
            s,
            events,
        ).status);
    } else {
        lemma_channel_failed_absorbs(s1, events.drop_first());
    }
}

proof fn lemma_done_saw_close_first(s: ChannelState, events: Seq<ChannelEvent>)
    requires
        s.stage is Opening || s.stage is Executing || s.stage is Receiving,
        channel_fold_from(s, events).stage is Done,
    ensures
        close_precedes_status(events, channel_fold_from(s, events).status),
    decreases events.len(),
{
    let s1 = channel_step(s, events.first());
    let rest = events.drop_first();
    if s1.stage is Failed {
        lemma_channel_failed_absorbs(s1, rest);
    } else if s1.stage is AwaitingStatus {
        lemma_status_from_await(s1, rest);
        let j = choose|j: int|
            0 <= j < rest.len() && ((#[trigger] rest[j]) matches ChannelEvent::ExitStatus(n)
                && n as int == channel_fold_from(s1, rest).status);
        assert(events[0] is Closed);
        assert(events[j + 1] matches ChannelEvent::ExitStatus(n) && n as int == channel_fold_from(
            s,
            events,
        ).status);
    } else {
        lemma_done_saw_close_first(s1, rest);
        let (i0, j0) = choose|i0: int, j0: int|
            #![trigger rest[i0], rest[j0]]
            0 <= i0 < j0 < rest.len() && rest[i0] is Closed && (rest[j0]
                matches ChannelEvent::ExitStatus(n) && n as int == channel_fold_from(
                s1,
                rest,
            ).status);
        assert(events[i0 + 1] is Closed);
        assert(events[j0 + 1] matches ChannelEvent::ExitStatus(n) && n as int == channel_fold_from(
            s,
            events,
        ).status);
    }
}

/// A successful run reads its exit status strictly after observing the
/// channel close: every transcript whose outcome is a result contains a
/// close, and the status the result carries was reported only later.
pub proof fn lemma_status_read_after_close(events: Seq<ChannelEvent>)
    requires
        channel_outcome(events) is Ok,
    ensures
        close_precedes_status(events, channel_outcome(events).unwrap().1),
{
    lemma_done_saw_close_first(channel_init(), events);
}

} // verus!

//! The per-peer synchronization state machine.
//!
//! One session runs per (log, channel) pair. It sends an initial
//! announcement, then folds every inbound message into its state and
//! produces the messages to send back: an acknowledging announcement for
//! every Synchronize, an upgrade request when the remote announces a new
//! length, and block requests for the entries a proof made reachable. Once
//! the log is contiguous up to its full length, the session asks for the
//! content to be read back and delivered once, and stays quiet until the
//! length grows again.
//!
//! Applying a proof to the log and moving bytes over the channel are the
//! callers' work; the functions here decide, from state and event alone,
//! what the session does next.

use crate::messages::{DataUpgrade, LogInfo, Message, Request, RequestBlock, RequestUpgrade, Synchronize};
use vstd::prelude::*;

verus! {

/// What a session knows about its remote peer, updated only by the
/// session's own message handling. `notified_length` records the contiguous
/// length the completion notification was last delivered for, so that the
/// terminal step runs at most once per length.
#[derive(Clone, Copy, Debug, PartialEq, Eq)]
pub struct PeerState {
    pub remote_length: u64,
    pub remote_can_upgrade: bool,
    pub remote_uploading: bool,
    pub remote_downloading: bool,
    pub remote_synced: bool,
    pub notified_length: Option<u64>,
}

/// The state a session starts in: nothing heard from the remote yet.
pub open spec fn initial_peer_state() -> PeerState {
    PeerState {
        remote_length: 0,
        remote_can_upgrade: false,
        remote_uploading: false,
        remote_downloading: false,
        remote_synced: false,
        notified_length: None,
    }
}

impl Default for PeerState {
    /// A fresh session state with zero/false defaults.
    fn default() -> (s: Self)
        ensures
            s == initial_peer_state(),
    {
        PeerState {
            remote_length: 0,
            remote_can_upgrade: false,
            remote_uploading: false,
            remote_downloading: false,
            remote_synced: false,
            notified_length: None,
        }
    }
}

/// The announcement a session opens with: its own fork and length, nothing
/// yet known of the remote.
pub open spec fn initial_synchronize_spec(info: LogInfo) -> Synchronize {
    Synchronize {
        fork: info.fork,
        length: info.length,
        remote_length: 0,
        can_upgrade: true,
        uploading: true,
        downloading: true,
    }
}

/// Build the announcement a session opens with.
pub fn initial_synchronize(info: &LogInfo) -> (m: Synchronize)
    ensures
        m == initial_synchronize_spec(*info),
{
    Synchronize {
        fork: info.fork,
        length: info.length,
        remote_length: 0,
        can_upgrade: true,
        uploading: true,
        downloading: true,
    }
}

/// The peer state after recording a Synchronize announcement.
pub open spec fn synchronize_state_update(state: PeerState, msg: Synchronize) -> PeerState {
    PeerState {
        remote_length: msg.length,
        remote_can_upgrade: msg.can_upgrade,
        remote_uploading: msg.uploading,
        remote_downloading: msg.downloading,
        remote_synced: true,
        ..state
    }
}

/// The acknowledging announcement sent back for every Synchronize: local
/// fork and length, echoing the just-learned remote length.
pub open spec fn synchronize_reply(info: LogInfo, msg: Synchronize) -> Synchronize {
    Synchronize {
        fork: info.fork,
        length: info.length,
        remote_length: msg.length,
        can_upgrade: true,
        uploading: true,
        downloading: true,
    }
}

/// Whether an announcement calls for an upgrade request: the remote reaches
/// past the local length, and the announced length differs from the one
/// already recorded. The second condition is the sole de-duplication of
/// upgrade requests: a repeated identical announcement asks for nothing.
pub open spec fn wants_upgrade(state: PeerState, info: LogInfo, msg: Synchronize) -> bool {
    msg.length > info.length && msg.length != state.remote_length
}

/// The upgrade request covering `[info.length, remote_length)`.
pub open spec fn upgrade_request(info: LogInfo, remote_length: u64) -> Request {
    Request {
        id: 1,
        fork: info.fork,
        block: None,
        upgrade: Some(
            RequestUpgrade { start: info.length, length: (remote_length - info.length) as u64 },
        ),
    }
}

/// The batch a Synchronize is answered with, in generation order: the
/// acknowledging announcement, then the upgrade request if one is called
/// for.
pub open spec fn synchronize_messages(state: PeerState, info: LogInfo, msg: Synchronize) -> Seq<
    Message,
> {
    let base = seq![Message::Synchronize(synchronize_reply(info, msg))];
    if wants_upgrade(state, info, msg) {
        base.push(Message::Request(upgrade_request(info, msg.length)))
    } else {
        base
    }
}

/// Fold a Synchronize announcement into the session: record the remote's
/// claims and return the batch to send back, in generation order.
pub fn on_synchronize(state: &mut PeerState, info: &LogInfo, msg: &Synchronize) -> (out: Vec<
    Message,
>)
    ensures
        *final(state) == synchronize_state_update(*old(state), *msg),
        out@ == synchronize_messages(*old(state), *info, *msg),
{
    let length_changed = msg.length != state.remote_length;
    state.remote_length = msg.length;
    state.remote_can_upgrade = msg.can_upgrade;
    state.remote_uploading = msg.uploading;
    state.remote_downloading = msg.downloading;
    state.remote_synced = true;

    let mut out: Vec<Message> = Vec::new();
    out.push(
        Message::Synchronize(
            Synchronize {
                fork: info.fork,
                length: info.length,
                remote_length: msg.length,
                can_upgrade: true,
                uploading: true,
                downloading: true,
            },
        ),
    );
    if msg.length > info.length && length_changed {
        out.push(
            Message::Request(
                Request {
                    id: 1,
                    fork: info.fork,
                    block: None,
                    upgrade: Some(
                        RequestUpgrade { start: info.length, length: msg.length - info.length },
                    ),
                },
            ),
        );
    }
    assert(out@ =~= synchronize_messages(*old(state), *info, *msg));
    out
}

/// Whether the log is fully synchronized: every entry up to its length is
/// held contiguously from index 0.
pub open spec fn is_synced(info: LogInfo) -> bool {
    info.contiguous_length == info.length
}

/// Whether this step delivers the completion notification: the log is fully
/// synchronized and no notification has been delivered for this length yet.
pub open spec fn should_notify(state: PeerState, new_info: LogInfo) -> bool {
    is_synced(new_info) && match state.notified_length {
        None => true,
        Some(n) => new_info.contiguous_length > n,
    }
}

/// The announcement sent after a proof extended the log: the upgraded
/// length under the new fork, upgrades no longer wanted.
pub open spec fn data_announce(state: PeerState, new_info: LogInfo, upgrade: DataUpgrade) -> Synchronize {
    Synchronize {
        fork: new_info.fork,
        length: upgrade.length,
        remote_length: state.remote_length,
        can_upgrade: false,
        uploading: true,
        downloading: true,
    }
}

/// The request for the single block at `index`, with the fixed two
/// supporting proof nodes.
pub open spec fn block_request(fork: u64, index: u64) -> Request {
    Request {
        id: (index + 1) as u64,
        fork,
        block: Some(RequestBlock { index, nodes: 2 }),
        upgrade: None,
    }
}

/// How many block requests an upgrade calls for: one per index in
/// `[old_length, upgrade.length)`.
pub open spec fn block_request_count(old_info: LogInfo, upgrade: DataUpgrade) -> nat {
    if upgrade.length >= old_info.length {
        (upgrade.length - old_info.length) as nat
    } else {
        0
    }
}

/// The batch a Data message generates: nothing without an upgrade;
/// otherwise the announcing Synchronize followed by one block request per
/// newly reachable index, in index order.
pub open spec fn data_messages(
    state: PeerState,
    old_info: LogInfo,
    new_info: LogInfo,
    upgrade: Option<DataUpgrade>,
) -> Seq<Message> {
    match upgrade {
        None => Seq::<Message>::empty(),
        Some(u) => seq![Message::Synchronize(data_announce(state, new_info, u))] + Seq::new(
            block_request_count(old_info, u),
            |i: int| Message::Request(block_request(new_info.fork, (old_info.length + i) as u64)),
        ),
    }
}

/// The messages actually sent after a Data message: the generated batch,
/// unless the log is now fully synchronized, in which case nothing is sent.
pub open spec fn data_outgoing(
    state: PeerState,
    old_info: LogInfo,
    new_info: LogInfo,
    upgrade: Option<DataUpgrade>,
) -> Seq<Message> {
    if is_synced(new_info) {
        Seq::<Message>::empty()
    } else {
        data_messages(state, old_info, new_info, upgrade)
    }
}

/// The completion read this step asks for: all entries up to the
/// contiguous length, exactly when the notification is owed.
pub open spec fn data_completion(state: PeerState, new_info: LogInfo) -> Option<u64> {
    if should_notify(state, new_info) {
        Some(new_info.contiguous_length)
    } else {
        None
    }
}

/// The peer state after a Data message: only the notification bookkeeping
/// moves.
pub open spec fn data_state_update(state: PeerState, new_info: LogInfo) -> PeerState {
    if should_notify(state, new_info) {
        PeerState { notified_length: Some(new_info.contiguous_length), ..state }
    } else {
        state
    }
}

/// What a Data message asks the caller to do: send `messages` over the
/// channel, and, if `completion` is `Some(n)`, read entries `0..n` back and
/// deliver them instead of sending anything.
pub struct DataOutcome {
    pub messages: Vec<Message>,
    pub completion: Option<u64>,
}

/// Fold an applied Data message into the session. `old_info` and `new_info`
/// are the log's state just before and just after the proof was applied,
/// and `upgrade` is the upgrade the message carried, if any.
pub fn on_data(
    state: &mut PeerState,
    old_info: &LogInfo,
    new_info: &LogInfo,
    upgrade: &Option<DataUpgrade>,
) -> (out: DataOutcome)
    ensures
        *final(state) == data_state_update(*old(state), *new_info),
        out.messages@ == data_outgoing(*old(state), *old_info, *new_info, *upgrade),
        out.completion == data_completion(*old(state), *new_info),
{
    let synced = new_info.contiguous_length == new_info.length;
    let mut messages: Vec<Message> = Vec::new();
    if !synced {
        if let Some(u) = upgrade {
            messages.push(Message::Synchronize(Synchronize {
                fork: new_info.fork,
                length: u.length,
                remote_length: state.remote_length,
                can_upgrade: false,
                uploading: true,
                downloading: true,
            }));
            let mut i: u64 = old_info.length;
            while i < u.length
                invariant
                    old_info.length <= i,
                    u.length >= old_info.length ==> i <= u.length,
                    u.length < old_info.length ==> i == old_info.length,
                    messages@ == seq![
                        Message::Synchronize(data_announce(*old(state), *new_info, *u)),
                    ] + Seq::new(
                        (i - old_info.length) as nat,
                        |k: int| Message::Request(
                            block_request(new_info.fork, (old_info.length + k) as u64),
                        ),
                    ),
                decreases u.length - i,
            {
                messages.push(Message::Request(Request {
                    id: i + 1,
                    fork: new_info.fork,
                    block: Some(RequestBlock { index: i, nodes: 2 }),
                    upgrade: None,
                }));
                i = i + 1;
                assert(messages@ =~= seq![
                    Message::Synchronize(data_announce(*old(state), *new_info, *u)),
                ] + Seq::new(
                    (i - old_info.length) as nat,
                    |k: int| Message::Request(
                        block_request(new_info.fork, (old_info.length + k) as u64),
                    ),
                ));
            }
        }
        assert(messages@ =~= data_outgoing(*old(state), *old_info, *new_info, *upgrade));
    }
    let completion: Option<u64> = if synced {
        let owed = match state.notified_length {
            None => true,
            Some(n) => new_info.contiguous_length > n,
        };
        if owed {
            state.notified_length = Some(new_info.contiguous_length);
            Some(new_info.contiguous_length)
        } else {
            None
        }
    } else {
        None
    };
    DataOutcome { messages, completion }
}

/// The concatenation of a sequence of log entries, in order.
pub open spec fn concat_entries(entries: Seq<Seq<u8>>) -> Seq<u8>
    decreases entries.len(),
{
    if entries.len() == 0 {
        Seq::<u8>::empty()
    } else {
        concat_entries(entries.drop_last()) + entries.last()
    }
}

/// Concatenate the entries read back for a completion notification into one
/// byte string, in order.
pub fn assemble_content(entries: &Vec<Vec<u8>>) -> (out: Vec<u8>)
    ensures
        out@ == concat_entries(entries.deep_view()),
{
    let mut out: Vec<u8> = Vec::new();
    let mut i: usize = 0;
    while i < entries.len()
        invariant
            0 <= i <= entries@.len(),
            entries.deep_view().len() == entries@.len(),
            out@ == concat_entries(entries.deep_view().take(i as int)),
        decreases entries@.len() - i,
    {
        let entry = &entries[i];
        let mut j: usize = 0;
        while j < entry.len()
            invariant
                0 <= j <= entry@.len(),
                out@ == concat_entries(entries.deep_view().take(i as int)) + entry@.take(j as int),
            decreases entry@.len() - j,
        {
            out.push(entry[j]);
            assert(entry@.take(j as int).push(entry@[j as int]) =~= entry@.take(j + 1));
            j = j + 1;
        }
        assert(entry@.take(j as int) =~= entry@);
        assert(entries.deep_view()[i as int] == entry@);
        assert(entries.deep_view().take(i + 1).drop_last() =~= entries.deep_view().take(i as int));
        assert(entries.deep_view().take(i + 1).last() == entry@);
        i = i + 1;
    }
    assert(entries.deep_view().take(i as int) =~= entries.deep_view());
    out
}

/// Law: a Synchronize that repeats the already-recorded remote length is
/// answered with the acknowledging echo alone; no Request is emitted,
/// whatever the local log looks like.
pub proof fn lemma_no_request_for_unchanged_length(state: PeerState, info: LogInfo, msg: Synchronize)
    requires
        msg.length == state.remote_length,
    ensures
        synchronize_messages(state, info, msg) == seq![
            Message::Synchronize(synchronize_reply(info, msg)),
        ],
{
}

/// How many Request messages a batch holds.
pub open spec fn request_count(msgs: Seq<Message>) -> nat
    decreases msgs.len(),
{
    if msgs.len() == 0 {
        0
    } else {
        (if msgs[0] is Request {
            1nat
        } else {
            0nat
        }) + request_count(msgs.drop_first())
    }
}

/// The batch answering one Synchronize holds exactly one Request when an
/// upgrade is called for, and none otherwise.
pub proof fn lemma_synchronize_request_count(state: PeerState, info: LogInfo, msg: Synchronize)
    ensures
        request_count(synchronize_messages(state, info, msg)) == (if wants_upgrade(
            state,
            info,
            msg,
        ) {
            1nat
        } else {
            0nat
        }),
{
    let out = synchronize_messages(state, info, msg);
    let rest = out.drop_first();
    if wants_upgrade(state, info, msg) {
        assert(out.len() == 2);
        assert(out[0] is Synchronize);
        assert(rest[0] == out[1]);
        assert(rest[0] is Request);
        assert(request_count(rest.drop_first()) == 0);
        assert(request_count(rest) == 1);
        assert(request_count(out) == 1);
    } else {
        assert(out.len() == 1);
        assert(out[0] is Synchronize);
        assert(request_count(rest) == 0);
        assert(request_count(out) == 0);
    }
}

/// How many of the announcements in `msgs`, folded in order into a session
/// at `state`, emit an upgrade request.
pub open spec fn total_upgrade_requests(state: PeerState, info: LogInfo, msgs: Seq<Synchronize>) -> nat
    decreases msgs.len(),
{
    if msgs.len() == 0 {
        0
    } else {
        (if wants_upgrade(state, info, msgs[0]) {
            1nat
        } else {
            0nat
        }) + total_upgrade_requests(synchronize_state_update(state, msgs[0]), info, msgs.drop_first())
    }
}

/// How many of the lengths announced in `msgs` strictly exceed the one
/// before them, starting from `prev`.
pub open spec fn strict_increases(prev: u64, msgs: Seq<Synchronize>) -> nat
    decreases msgs.len(),
{
    if msgs.len() == 0 {
        0
    } else {
        (if msgs[0].length > prev {
            1nat
        } else {
            0nat
        }) + strict_increases(msgs[0].length, msgs.drop_first())
    }
}

/// Law: over any run of Synchronize announcements with non-decreasing
/// lengths, the session emits at most one upgrade request per strictly
/// increased length; repeated identical announcements re-trigger nothing.
pub proof fn lemma_at_most_one_request_per_new_length(
    state: PeerState,
    info: LogInfo,
    msgs: Seq<Synchronize>,
)
    requires
        forall|i: int| #![trigger msgs[i]] 0 <= i < msgs.len() - 1 ==> msgs[i].length <= msgs[i + 1].length,
        msgs.len() > 0 ==> state.remote_length <= msgs[0].length,
    ensures
        total_upgrade_requests(state, info, msgs) <= strict_increases(state.remote_length, msgs),
    decreases msgs.len(),
{
    if msgs.len() > 0 {
        let state2 = synchronize_state_update(state, msgs[0]);
        let rest = msgs.drop_first();
        assert(forall|i: int|
            #![trigger rest[i]]
            0 <= i < rest.len() - 1 ==> rest[i].length <= rest[i + 1].length) by {
            assert(forall|i: int| #![trigger rest[i]] 0 <= i < rest.len() ==> rest[i] == msgs[i + 1]);
        }
        assert(rest.len() > 0 ==> state2.remote_length <= rest[0].length) by {
            assert(rest.len() > 0 ==> rest[0] == msgs[1]);
        }
        lemma_at_most_one_request_per_new_length(state2, info, rest);
        assert(wants_upgrade(state, info, msgs[0]) ==> msgs[0].length > state.remote_length);
    }
}

/// Law: a step that delivers the completion notification leaves the session
/// in a state from which a repeated Data message over an unchanged log
/// delivers nothing and sends nothing, until the length grows again.
pub proof fn lemma_completion_at_most_once(
    state: PeerState,
    new_info: LogInfo,
    later_old_info: LogInfo,
    later_upgrade: Option<DataUpgrade>,
)
    requires
        should_notify(state, new_info),
    ensures
        data_completion(state, new_info) == Some(new_info.contiguous_length),
        ({
            let state2 = data_state_update(state, new_info);
            data_completion(state2, new_info) is None && data_outgoing(
                state2,
                later_old_info,
                new_info,
                later_upgrade,
            ) == Seq::<Message>::empty() && data_state_update(state2, new_info) == state2
        }),
{
}

} // verus!

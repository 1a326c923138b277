//! Session commands: enqueueing, the engagement-weighted selection, and
//! the voice-connection decisions.
//!
//! The selection works on a snapshot: the embedder copies the queued
//! requests' origin messages, queries the engagement count of each without
//! holding the session, and hands the pairs to `select_request`; the
//! chosen request is then removed with `Guild::song_queue_take`, which
//! re-validates that it is still queued and asks for a retry otherwise.

use vstd::prelude::*;
use vstd::string::StringExecFns;
use crate::data::{GuildView, Guild, spec_now_wait, spec_now_play, spec_queue_take, spec_disconnect,
    msg_index};
use crate::data::song::{Now, Request, RequestState, now_request, with_state};

verus! {

/// Why a session command could not be carried out.
#[derive(Clone, Copy, Debug, PartialEq, Eq, Structural)]
pub enum SongError {
    /// The command was used outside a room.
    Guild,
    /// No voice channel could be resolved for the requesting user.
    VoiceChannel,
    /// The session has no voice connection for an operation needing one.
    VoiceConnection,
}

impl SongError {
    /// The message shown to the user for this error.
    pub fn message(&self) -> (r: String)
        ensures
            self is Guild ==> r@ == "Song feature requires guild to use voice chat."@,
            self is VoiceChannel ==> r@ == "Cannot find voice channel from request."@,
            self is VoiceConnection ==> r@ == "Bot is not connected to the voice channel."@,
    {
        match self {
            SongError::Guild => String::from_str("Song feature requires guild to use voice chat."),
            SongError::VoiceChannel => String::from_str("Cannot find voice channel from request."),
            SongError::VoiceConnection => String::from_str(
                "Bot is not connected to the voice channel.",
            ),
        }
    }
}

/// What a submitted request is for: playing, downloading the converted
/// artifact, or both.
#[derive(Clone, Copy, Debug, PartialEq, Eq, Structural)]
pub enum SongRequestTarget {
    Play,
    Download,
    All,
}

impl Default for SongRequestTarget {
    /// Submissions play by default.
    fn default() -> (r: Self)
        ensures
            r is Play,
    {
        SongRequestTarget::Play
    }
}

impl SongRequestTarget {
    /// Whether the request is queued for playback.
    pub fn should_play(&self) -> (b: bool)
        ensures
            b == (self is Play || self is All),
    {
        match self {
            SongRequestTarget::Play => true,
            SongRequestTarget::Download => false,
            SongRequestTarget::All => true,
        }
    }

    /// Whether the converted artifact is exported and sent back.
    pub fn should_download(&self) -> (b: bool)
        ensures
            b == (self is Download || self is All),
    {
        match self {
            SongRequestTarget::Play => false,
            SongRequestTarget::Download => true,
            SongRequestTarget::All => true,
        }
    }
}

/// Whether an enqueued request starts playing at once or waits behind
/// others.
#[derive(Clone, Copy, Debug, PartialEq, Eq, Structural)]
pub enum SongCommandResult {
    Play,
    Queue,
}

/// The enqueue transition: the request joins the back of the queue marked
/// queued; if the session was idle — empty queue and empty slot — it is
/// to be played at once.
pub open spec fn spec_enqueue(g: GuildView, r: Request) -> (GuildView, SongCommandResult) {
    let queued = with_state(r, RequestState::Queue);
    (
        GuildView { song_queue: g.song_queue.push(queued), ..g },
        if g.song_queue.len() == 0 && g.song_now is None {
            SongCommandResult::Play
        } else {
            SongCommandResult::Queue
        },
    )
}

/// Appends a request to the session's queue, marking it queued.  Returns
/// `Play` exactly when the session was idle, in which case the caller
/// advances the session at once; no other trigger is needed.
pub fn queue_internal(guild: &mut Guild, request: Request) -> (r: SongCommandResult)
    ensures
        final(guild)@ == spec_enqueue(old(guild)@, request).0,
        r == spec_enqueue(old(guild)@, request).1,
{
    let first = guild.song_queue.len() == 0 && guild.song_now.is_none();
    let mut queued = request;
    queued.state = RequestState::Queue;
    guild.song_queue.push_back(queued);
    proof {
        assert(guild@ =~= spec_enqueue(old(guild)@, request).0);
    }
    if first {
        SongCommandResult::Play
    } else {
        SongCommandResult::Queue
    }
}

/// The snapshot entry — origin message and engagement count — the
/// selection prefers: the highest count, and among equal counts the one
/// queued first.
pub open spec fn best_entry(s: Seq<(u64, u64)>) -> (u64, u64)
    decreases s.len(),
{
    if s.len() <= 1 {
        s[0]
    } else {
        let prev = best_entry(s.drop_last());
        if s.last().1 > prev.1 {
            s.last()
        } else {
            prev
        }
    }
}

/// The origin message the selection picks from a snapshot, if it is not
/// empty.
pub open spec fn spec_select(s: Seq<(u64, u64)>) -> Option<u64> {
    if s.len() == 0 {
        None
    } else {
        Some(best_entry(s).0)
    }
}

/// Position of the entry `best_entry` picks: the first position whose
/// count no other entry exceeds.
pub open spec fn best_index(s: Seq<(u64, u64)>) -> int
    decreases s.len(),
{
    if s.len() <= 1 {
        0
    } else {
        let prev = best_index(s.drop_last());
        if s.last().1 > s[prev].1 {
            s.len() - 1
        } else {
            prev
        }
    }
}

/// Selection tie-break: the selected entry holds the maximal engagement
/// count, and every entry queued before it holds a strictly smaller one —
/// the first to reach the maximum wins.
pub proof fn lemma_select_first_max(s: Seq<(u64, u64)>)
    requires
        s.len() > 0,
    ensures
        0 <= best_index(s) < s.len(),
        s[best_index(s)] == best_entry(s),
        spec_select(s) == Some(s[best_index(s)].0),
        forall|j: int| 0 <= j < s.len() ==> (#[trigger] s[j]).1 <= s[best_index(s)].1,
        forall|j: int| 0 <= j < best_index(s) ==> (#[trigger] s[j]).1 < s[best_index(s)].1,
    decreases s.len(),
{
    if s.len() > 1 {
        lemma_select_first_max(s.drop_last());
        assert(forall|j: int| 0 <= j < s.len() - 1 ==> s[j] == s.drop_last()[j]);
    }
}

/// Picks from an engagement snapshot — pairs of origin message and
/// engagement count, in queue order — the request to play next: the
/// first to reach the highest count.  An empty snapshot selects nothing.
pub fn select_request(snapshot: &Vec<(u64, u64)>) -> (r: Option<u64>)
    ensures
        r == spec_select(snapshot@),
{
    if snapshot.len() == 0 {
        return None;
    }
    let mut best: (u64, u64) = snapshot[0];
    let mut i: usize = 1;
    while i < snapshot.len()
        invariant
            1 <= i <= snapshot@.len(),
            best == best_entry(snapshot@.take(i as int)),
        decreases snapshot@.len() - i,
    {
        proof {
            assert(snapshot@.take(i as int + 1).drop_last() =~= snapshot@.take(i as int));
        }
        if snapshot[i].1 > best.1 {
            best = snapshot[i];
        }
        i = i + 1;
    }
    proof {
        assert(snapshot@.take(snapshot@.len() as int) =~= snapshot@);
    }
    Some(best.0)
}

/// How a join request is satisfied: by reusing the connection already on
/// that channel, or by attaching a new one there.
#[derive(Clone, Copy, Debug, PartialEq, Eq, Structural)]
pub enum JoinAction {
    Reuse,
    Connect(u64),
}

/// Decides a join request: without a resolvable voice channel for the
/// user it fails; on the channel the session is already connected to, the
/// connection is reused; otherwise a new connection is made there.
pub fn join_plan(user_channel: Option<u64>, connected: Option<u64>) -> (r: Result<
    JoinAction,
    SongError,
>)
    ensures
        user_channel is None ==> r == Err::<JoinAction, SongError>(SongError::VoiceChannel),
        user_channel matches Some(c) ==> r == Ok::<JoinAction, SongError>(
            if connected == Some(c) {
                JoinAction::Reuse
            } else {
                JoinAction::Connect(c)
            },
        ),
{
    match user_channel {
        None => Err(SongError::VoiceChannel),
        Some(c) => {
            let same = match connected {
                Some(cur) => cur == c,
                None => false,
            };
            if same {
                Ok(JoinAction::Reuse)
            } else {
                Ok(JoinAction::Connect(c))
            }
        },
    }
}

/// How many of the listed channel members are people: the count of
/// entries whose bot flag is off.
pub open spec fn count_people(s: Seq<bool>) -> int
    decreases s.len(),
{
    if s.len() == 0 {
        0
    } else {
        count_people(s.drop_last()) + (if s.last() {
            0int
        } else {
            1int
        })
    }
}

/// Counts the people among the listed channel members, given each
/// member's bot flag.
pub fn non_bot_count(members_bot: &Vec<bool>) -> (n: usize)
    ensures
        n == count_people(members_bot@),
{
    let mut n: usize = 0;
    let mut i: usize = 0;
    while i < members_bot.len()
        invariant
            i <= members_bot@.len(),
            n <= i,
            n == count_people(members_bot@.take(i as int)),
        decreases members_bot@.len() - i,
    {
        proof {
            assert(members_bot@.take(i as int + 1).drop_last() =~= members_bot@.take(i as int));
        }
        if !members_bot[i] {
            n = n + 1;
        }
        i = i + 1;
    }
    proof {
        assert(members_bot@.take(members_bot@.len() as int) =~= members_bot@);
    }
    n
}

/// The auto-leave policy: after a participant change in the channel the
/// session is connected to, the session leaves exactly when no person is
/// left there.
pub fn should_auto_leave(connected: Option<u64>, event_channel: u64, people_left: usize) -> (b:
    bool)
    ensures
        b == (connected == Some(event_channel) && people_left == 0),
{
    match connected {
        Some(c) => c == event_channel && people_left == 0,
        None => false,
    }
}

/// Admissible lifecycle steps of a request's marking: the marking only
/// moves forward along unset, queued, playing, done — except that a
/// queued or playing request may move directly to canceled.
pub open spec fn request_step_ok(pre: RequestState, post: RequestState) -> bool {
    ||| pre == post
    ||| (pre is Unset && (post is Queue || post is Playing || post is Done))
    ||| (pre is Queue && (post is Playing || post is Done || post is Canceled))
    ||| (pre is Playing && (post is Done || post is Canceled))
}

/// The session's marking discipline: a queued request is marked queued,
/// and the slot's request is marked queued while waiting and playing once
/// playing.
pub open spec fn session_states_ok(g: GuildView) -> bool {
    &&& (g.song_now matches Some(Now::Waiting { request }) ==> request.state is Queue)
    &&& (g.song_now matches Some(Now::Playing { track, request }) ==> request.state is Playing)
    &&& (forall|i: int|
        0 <= i < g.song_queue.len() ==> (#[trigger] g.song_queue[i]).state is Queue)
}

/// Every session transition keeps the marking discipline, and every
/// marking it makes on a request is an admissible lifecycle step: a taken
/// request starts playing, a completed one is done, and a canceled or
/// drained one is canceled — never anything else.
pub proof fn lemma_session_markings(g: GuildView, r: Request, track: u64, chosen: u64)
    requires
        session_states_ok(g),
    ensures
        session_states_ok(spec_enqueue(g, r).0),
        (r.state is Unset || r.state is Queue) ==> request_step_ok(r.state, RequestState::Queue),
        session_states_ok(spec_queue_take(g, chosen).0),
        r.state is Queue ==> session_states_ok(spec_now_wait(spec_queue_take(g, chosen).0, r)),
        g.song_now matches Some(Now::Waiting { request }) ==> {
            &&& session_states_ok(spec_now_play(g, track))
            &&& request_step_ok(request.state, RequestState::Playing)
        },
        g.song_now matches Some(n) ==> request_step_ok(now_request(n).state, RequestState::Done)
            && request_step_ok(now_request(n).state, RequestState::Canceled),
        session_states_ok(crate::data::spec_now_complete(g).0),
        session_states_ok(crate::data::spec_now_cancel(g).0),
        session_states_ok(crate::data::spec_queue_clear(g).0),
        forall|i: int|
            0 <= i < g.song_queue.len() ==> request_step_ok(
                (#[trigger] g.song_queue[i]).state,
                RequestState::Canceled,
            ),
        session_states_ok(spec_disconnect(g).0),
{
    let taken = spec_queue_take(g, chosen).0;
    assert(session_states_ok(taken)) by {
        if msg_index(g.song_queue, chosen, 0) is Some {
            let i = msg_index(g.song_queue, chosen, 0)->0;
            crate::data::lemma_msg_index_bounds(g.song_queue, chosen, 0);
            g.song_queue.remove_ensures(i);
        }
    }
}

/// Number of occupied playback slots: one while the single slot holds a
/// request, zero otherwise.
pub open spec fn occupied_slots(g: GuildView) -> int {
    if g.song_now is Some {
        1
    } else {
        0
    }
}

/// At most one non-empty playback slot exists after any session
/// transition, whatever the session held before.
pub proof fn lemma_single_slot(g: GuildView, r: Request, track: u64, chosen: u64)
    ensures
        occupied_slots(spec_enqueue(g, r).0) <= 1,
        occupied_slots(spec_now_wait(g, r)) <= 1,
        occupied_slots(spec_now_play(g, track)) <= 1,
        occupied_slots(crate::data::spec_now_complete(g).0) <= 1,
        occupied_slots(crate::data::spec_now_cancel(g).0) <= 1,
        occupied_slots(spec_queue_take(g, chosen).0) <= 1,
        occupied_slots(crate::data::spec_queue_clear(g).0) <= 1,
        occupied_slots(spec_disconnect(g).0) <= 1,
{
}

/// Enqueue into an idle, empty session triggers immediate play: the
/// enqueue itself answers `Play`, the selection over the one-request
/// snapshot picks that request, taking it succeeds, and the wait/play
/// steps leave the session playing exactly it — no external trigger
/// appears anywhere in the chain.
pub proof fn lemma_enqueue_idle_plays(g: GuildView, r: Request, count: u64, track: u64)
    requires
        g.song_now is None,
        g.song_queue.len() == 0,
    ensures
        spec_enqueue(g, r).1 == SongCommandResult::Play,
        spec_select(seq![(r.message_id, count)]) == Some(r.message_id),
        spec_queue_take(spec_enqueue(g, r).0, r.message_id).1 == Some(
            with_state(r, RequestState::Queue),
        ),
        ({
            let g1 = spec_enqueue(g, r).0;
            let g2 = spec_queue_take(g1, r.message_id).0;
            let g3 = spec_now_wait(g2, with_state(r, RequestState::Queue));
            let g4 = spec_now_play(g3, track);
            &&& g4.song_queue.len() == 0
            &&& g4.song_now == Some(
                Now::Playing { track, request: with_state(r, RequestState::Playing) },
            )
        }),
{
    let queued = with_state(r, RequestState::Queue);
    let g1 = spec_enqueue(g, r).0;
    assert(g1.song_queue == g.song_queue.push(queued));
    assert(g1.song_queue[0] == queued);
    assert(msg_index(g1.song_queue, r.message_id, 0) == Some(0int));
    let g2 = spec_queue_take(g1, r.message_id).0;
    assert(g2.song_queue =~= Seq::<Request>::empty());
    let g3 = spec_now_wait(g2, queued);
    let g4 = spec_now_play(g3, track);
    assert(now_request(g3.song_now->0) == queued);
    assert(with_state(queued, RequestState::Playing) == with_state(r, RequestState::Playing));
}

/// Disconnect draining: one disconnect notification empties the slot and
/// the queue, releases the connection, and hands back every held request
/// marked canceled — the slot's request and each queued one alike.
pub proof fn lemma_disconnect_drains(g: GuildView)
    ensures
        spec_disconnect(g).0.song_now is None,
        spec_disconnect(g).0.song_queue.len() == 0,
        spec_disconnect(g).0.voice is None,
        g.song_now matches Some(n) ==> spec_disconnect(g).1 == Some(
            with_state(now_request(n), RequestState::Canceled),
        ),
        g.song_now is None ==> spec_disconnect(g).1 is None,
        spec_disconnect(g).2.len() == g.song_queue.len(),
        forall|i: int|
            0 <= i < g.song_queue.len() ==> spec_disconnect(g).2[i] == with_state(
                g.song_queue[i],
                RequestState::Canceled,
            ) && spec_disconnect(g).2[i].state == RequestState::Canceled,
{
}

/// Queue exhaustion: advancing an idle session with an empty queue does
/// nothing — the empty snapshot selects no request, and taking from the
/// empty queue returns nothing and leaves the session exactly as it was,
/// so no playback and no process spawn can follow.
pub proof fn lemma_advance_empty_idle(g: GuildView, chosen: u64)
    requires
        g.song_queue.len() == 0,
    ensures
        spec_select(Seq::empty()) is None,
        spec_queue_take(g, chosen).0 == g,
        spec_queue_take(g, chosen).1 is None,
{
    assert(msg_index(g.song_queue, chosen, 0) is None);
}

} // verus!

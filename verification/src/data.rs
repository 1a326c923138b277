//! Per-room state: the playback session, the room's configuration, and
//! the users' profiles.
//!
//! A `Guild` is one room's session: the ordered queue of playback
//! requests, the single playback slot, the voice-connection reference, and
//! the room's configured channels and users.  The queue and slot
//! operations here are the session's state transitions; the scheduling
//! queries, the streaming and every gateway call stay with the embedder,
//! which drives these transitions with their outcomes.

pub mod channel;
pub mod song;

use vstd::prelude::*;
use std::collections::VecDeque;
use crate::data::channel::{Property, same_kind};
use crate::data::song::{Now, Request, RequestState, now_request, with_state};

verus! {

/// Marker for the per-process shared context the embedder keeps beside
/// the rooms' sessions.
pub struct Data;

/// A date as plain calendar fields.
#[derive(Clone, Copy, Debug, PartialEq, Eq, Structural)]
pub struct Date {
    pub year: i32,
    pub month: u8,
    pub day: u8,
}

/// A user's profile inside one room.
#[derive(Debug, Clone)]
pub struct User {
    pub birthday: Option<Date>,
    pub phone_number: Option<String>,
}

impl Default for User {
    /// An empty profile.
    fn default() -> (r: Self)
        ensures
            r.birthday is None,
            r.phone_number is None,
    {
        User { birthday: None, phone_number: None }
    }
}

/// The properties kept, in order, when those of the given kind are
/// removed.
pub open spec fn without_kind(s: Seq<Property>, kind: Property) -> Seq<Property>
    decreases s.len(),
{
    if s.len() == 0 {
        Seq::empty()
    } else {
        let rest = without_kind(s.drop_last(), kind);
        if same_kind(s.last(), kind) {
            rest
        } else {
            rest.push(s.last())
        }
    }
}

/// The elements kept, in order, under a pointwise keep/drop decision.
pub open spec fn mask_keep<T>(s: Seq<T>, keep: Seq<bool>) -> Seq<T>
    decreases s.len()
        when s.len() == keep.len()
{
    if s.len() == 0 {
        Seq::empty()
    } else {
        let rest = mask_keep(s.drop_last(), keep.drop_last());
        if keep.last() {
            rest.push(s.last())
        } else {
            rest
        }
    }
}

/// A channel's configuration: its properties.
#[derive(Debug)]
pub struct Channel {
    pub properties: Vec<Property>,
}

impl Default for Channel {
    /// A channel with no properties.
    fn default() -> (r: Self)
        ensures
            r.properties@.len() == 0,
    {
        Channel { properties: Vec::new() }
    }
}

impl Channel {
    /// Whether some property passes the filter.
    pub fn has_property<F: Fn(&Property) -> bool>(&self, filter: F) -> (b: bool)
        requires
            forall|i: int|
                0 <= i < self.properties@.len() ==> call_requires(filter, (&self.properties@[i],)),
        ensures
            b ==> exists|i: int|
                0 <= i < self.properties@.len() && call_ensures(
                    filter,
                    (&self.properties@[i],),
                    true,
                ),
            !b ==> forall|i: int|
                0 <= i < self.properties@.len() ==> call_ensures(
                    filter,
                    (&self.properties@[i],),
                    false,
                ),
    {
        let mut i: usize = 0;
        while i < self.properties.len()
            invariant
                i <= self.properties@.len(),
                forall|k: int|
                    0 <= k < self.properties@.len() ==> call_requires(
                        filter,
                        (&self.properties@[k],),
                    ),
                forall|k: int|
                    0 <= k < i ==> call_ensures(filter, (&self.properties@[k],), false),
            decreases self.properties@.len() - i,
        {
            if filter(&self.properties[i]) {
                return true;
            }
            i = i + 1;
        }
        false
    }

    /// The first property passing the filter, if any does.
    pub fn get_property<F: Fn(&Property) -> bool>(&self, filter: F) -> (r: Option<&Property>)
        requires
            forall|i: int|
                0 <= i < self.properties@.len() ==> call_requires(filter, (&self.properties@[i],)),
        ensures
            r matches Some(p) ==> exists|i: int|
                0 <= i < self.properties@.len() && *p == self.properties@[i] && call_ensures(
                    filter,
                    (&self.properties@[i],),
                    true,
                ) && (forall|j: int|
                    0 <= j < i ==> call_ensures(filter, (&self.properties@[j],), false)),
            r is None ==> forall|i: int|
                0 <= i < self.properties@.len() ==> call_ensures(
                    filter,
                    (&self.properties@[i],),
                    false,
                ),
    {
        let mut i: usize = 0;
        while i < self.properties.len()
            invariant
                i <= self.properties@.len(),
                forall|k: int|
                    0 <= k < self.properties@.len() ==> call_requires(
                        filter,
                        (&self.properties@[k],),
                    ),
                forall|k: int|
                    0 <= k < i ==> call_ensures(filter, (&self.properties@[k],), false),
            decreases self.properties@.len() - i,
        {
            if filter(&self.properties[i]) {
                return Some(&self.properties[i]);
            }
            i = i + 1;
        }
        None
    }

    /// Sets a property, replacing any property of the same kind.
    pub fn set_property(&mut self, property: Property)
        ensures
            final(self).properties@ == without_kind(old(self).properties@, property).push(property),
    {
        let ghost orig = self.properties@;
        let ghost kind = property;
        let mut out: Vec<Property> = Vec::new();
        let ghost mut seen: int = 0;
        while self.properties.len() > 0
            invariant
                0 <= seen <= orig.len(),
                self.properties@ == orig.skip(seen),
                out@ == without_kind(orig.take(seen), kind),
            decreases orig.len() - seen,
        {
            let p = self.properties.remove(0);
            let keep = match &p {
                Property::Attribute(_) => !matches!(&property, Property::Attribute(_)),
            };
            proof {
                assert(orig.skip(seen).drop_first() =~= orig.skip(seen + 1));
                assert(p == orig[seen]);
                assert(orig.take(seen + 1).drop_last() =~= orig.take(seen));
                assert(keep == !same_kind(orig[seen], kind));
            }
            if keep {
                out.push(p);
            }
            proof {
                seen = seen + 1;
            }
        }
        proof {
            assert(seen == orig.len());
            assert(orig.take(seen) =~= orig);
        }
        out.push(property);
        self.properties = out;
    }

    /// Removes every property passing the filter, keeping the others in
    /// order: the final properties are the old ones masked by some
    /// pointwise decision the filter agreed to.
    pub fn remove_property<F: Fn(&Property) -> bool>(&mut self, filter: F)
        requires
            forall|i: int|
                0 <= i < old(self).properties@.len() ==> call_requires(
                    filter,
                    (&old(self).properties@[i],),
                ),
        ensures
            exists|keep: Seq<bool>|
                {
                    &&& keep.len() == old(self).properties@.len()
                    &&& (forall|i: int|
                        0 <= i < keep.len() ==> call_ensures(
                            filter,
                            (&old(self).properties@[i],),
                            !keep[i],
                        ))
                    &&& final(self).properties@ == mask_keep(old(self).properties@, keep)
                },
    {
        let ghost orig = self.properties@;
        let mut out: Vec<Property> = Vec::new();
        let ghost mut keep: Seq<bool> = Seq::empty();
        let ghost mut seen: int = 0;
        while self.properties.len() > 0
            invariant
                0 <= seen <= orig.len(),
                self.properties@ == orig.skip(seen),
                keep.len() == seen,
                forall|k: int| 0 <= k < seen ==> call_ensures(filter, (&orig[k],), !keep[k]),
                out@ == mask_keep(orig.take(seen), keep),
                forall|i: int| 0 <= i < orig.len() ==> call_requires(filter, (&orig[i],)),
            decreases orig.len() - seen,
        {
            let p = self.properties.remove(0);
            proof {
                assert(orig.skip(seen).drop_first() =~= orig.skip(seen + 1));
                assert(p == orig[seen]);
            }
            let dropped = filter(&p);
            if !dropped {
                out.push(p);
            }
            proof {
                let ghost prev = keep;
                keep = keep.push(!dropped);
                seen = seen + 1;
                assert(orig.take(seen).drop_last() =~= orig.take(seen - 1));
                assert(keep.drop_last() =~= prev);
                assert(orig.take(seen).last() == orig[seen - 1]);
                assert(out@ == mask_keep(orig.take(seen), keep));
            }
        }
        proof {
            assert(seen == orig.len());
            assert(orig.take(seen) =~= orig);
        }
        self.properties = out;
    }
}

/// First position at or after `from` keyed `k`.
pub open spec fn key_index<T>(s: Seq<(u64, T)>, k: u64, from: int) -> Option<int>
    decreases s.len() - from
        when 0 <= from <= s.len()
{
    if from >= s.len() {
        None
    } else if s[from].0 == k {
        Some(from)
    } else {
        key_index(s, k, from + 1)
    }
}

/// A scan that reached `upto` without finding the key, standing before an
/// element carrying it, pins the first occurrence there.
pub proof fn lemma_key_index_extend<T>(s: Seq<(u64, T)>, k: u64, upto: int)
    requires
        0 <= upto < s.len(),
        s[upto].0 == k,
        key_index(s, k, 0) == key_index(s, k, upto),
    ensures
        key_index(s, k, 0) == Some(upto),
{
}

/// First queue position at or after `from` whose request originates from
/// the message `m`.
pub open spec fn msg_index(q: Seq<Request>, m: u64, from: int) -> Option<int>
    decreases q.len() - from
        when 0 <= from <= q.len()
{
    if from >= q.len() {
        None
    } else if q[from].message_id == m {
        Some(from)
    } else {
        msg_index(q, m, from + 1)
    }
}

/// A found queue position is in range and carries the message it was
/// found by.
pub proof fn lemma_msg_index_bounds(q: Seq<Request>, m: u64, from: int)
    requires
        0 <= from <= q.len(),
        msg_index(q, m, from) is Some,
    ensures
        ({
            let i = msg_index(q, m, from)->0;
            from <= i < q.len() && q[i].message_id == m
        }),
    decreases q.len() - from,
{
    if from < q.len() && q[from].message_id != m {
        lemma_msg_index_bounds(q, m, from + 1);
    }
}

/// Abstract state of a room's session and configuration.
#[verifier::ext_equal]
pub struct GuildView {
    pub id: u64,
    pub channels: Seq<(u64, Channel)>,
    pub channel_notify: Option<u64>,
    pub channel_song: Option<u64>,
    pub users: Seq<(u64, User)>,
    pub song_now: Option<Now>,
    pub song_queue: Seq<Request>,
    pub voice: Option<u64>,
}

/// One room: its session state and its configuration.
pub struct Guild {
    pub id: u64,
    pub channels: Vec<(u64, Channel)>,
    pub channel_notify: Option<u64>,
    pub channel_song: Option<u64>,
    pub users: Vec<(u64, User)>,
    pub song_now: Option<Now>,
    pub song_queue: VecDeque<Request>,
    pub voice: Option<u64>,
}

impl View for Guild {
    type V = GuildView;

    open spec fn view(&self) -> GuildView {
        GuildView {
            id: self.id,
            channels: self.channels@,
            channel_notify: self.channel_notify,
            channel_song: self.channel_song,
            users: self.users@,
            song_now: self.song_now,
            song_queue: self.song_queue@,
            voice: self.voice,
        }
    }
}

/// Occupying the slot with a request about to resolve.
pub open spec fn spec_now_wait(g: GuildView, r: Request) -> GuildView {
    GuildView { song_now: Some(Now::Waiting { request: r }), ..g }
}

/// Moving the waiting request onto a streaming track; it is then marked
/// playing.
pub open spec fn spec_now_play(g: GuildView, track: u64) -> GuildView {
    let r = now_request(g.song_now->0);
    GuildView {
        song_now: Some(
            Now::Playing { track, request: with_state(r, RequestState::Playing) },
        ),
        ..g
    }
}

/// Clearing the slot on natural completion: the request leaves marked
/// done.
pub open spec fn spec_now_complete(g: GuildView) -> (GuildView, Option<Request>) {
    match g.song_now {
        Some(n) => (
            GuildView { song_now: None, ..g },
            Some(with_state(now_request(n), RequestState::Done)),
        ),
        None => (g, None),
    }
}

/// Clearing the slot on cancellation: the request leaves marked canceled.
pub open spec fn spec_now_cancel(g: GuildView) -> (GuildView, Option<Request>) {
    match g.song_now {
        Some(n) => (
            GuildView { song_now: None, ..g },
            Some(with_state(now_request(n), RequestState::Canceled)),
        ),
        None => (g, None),
    }
}

/// Draining the whole queue: every queued request leaves marked canceled.
pub open spec fn spec_queue_clear(g: GuildView) -> (GuildView, Seq<Request>) {
    (
        GuildView { song_queue: Seq::empty(), ..g },
        g.song_queue.map_values(|r: Request| with_state(r, RequestState::Canceled)),
    )
}

/// Removing the chosen request from the queue, re-validated by its origin
/// message: if no queued request originates from `chosen` any more, the
/// queue is left unchanged and the selection must be retried.
pub open spec fn spec_queue_take(g: GuildView, chosen: u64) -> (GuildView, Option<Request>) {
    match msg_index(g.song_queue, chosen, 0) {
        Some(i) => (
            GuildView { song_queue: g.song_queue.remove(i), ..g },
            Some(g.song_queue[i]),
        ),
        None => (g, None),
    }
}

/// The disconnect transition: the slot is canceled, the queue drained,
/// and the voice connection released.
pub open spec fn spec_disconnect(g: GuildView) -> (GuildView, Option<Request>, Seq<Request>) {
    let (g1, cur) = spec_now_cancel(g);
    let (g2, drained) = spec_queue_clear(g1);
    (GuildView { voice: None, ..g2 }, cur, drained)
}

/// Whether a join attaches a new connection or finds the session already
/// on that channel.
#[derive(Clone, Copy, Debug, PartialEq, Eq, Structural)]
pub enum JoinOutcome {
    Joined,
    AlreadyConnected,
}

/// What became of a request whose origin message was deleted: the slot
/// holds it (the session must advance), it sat in the queue (now
/// removed), or it was not held at all.
#[derive(Clone, Copy, Debug, PartialEq, Eq, Structural)]
pub enum DeleteOutcome {
    AdvanceCurrent,
    Removed,
    NotFound,
}

/// The deletion transition: a deleted origin message pulls its request
/// out of the queue; if the slot holds it instead, the session is told to
/// advance and left untouched here.
pub open spec fn spec_message_deleted(g: GuildView, m: u64) -> (GuildView, DeleteOutcome) {
    if g.song_now matches Some(n) && now_request(n).message_id == m {
        (g, DeleteOutcome::AdvanceCurrent)
    } else {
        match msg_index(g.song_queue, m, 0) {
            Some(i) => (
                GuildView { song_queue: g.song_queue.remove(i), ..g },
                DeleteOutcome::Removed,
            ),
            None => (g, DeleteOutcome::NotFound),
        }
    }
}

impl Guild {
    /// A fresh, idle session for a room.
    pub fn new(id: u64) -> (g: Guild)
        ensures
            g@ == (GuildView {
                id,
                channels: Seq::empty(),
                channel_notify: None,
                channel_song: None,
                users: Seq::empty(),
                song_now: None,
                song_queue: Seq::empty(),
                voice: None,
            }),
    {
        let g = Guild {
            id,
            channels: Vec::new(),
            channel_notify: None,
            channel_song: None,
            users: Vec::new(),
            song_now: None,
            song_queue: VecDeque::new(),
            voice: None,
        };
        proof {
            assert(g@ =~= (GuildView {
                id,
                channels: Seq::empty(),
                channel_notify: None,
                channel_song: None,
                users: Seq::empty(),
                song_now: None,
                song_queue: Seq::empty(),
                voice: None,
            }));
        }
        g
    }

    /// The configuration of a channel, if it has any.
    pub fn channel(&self, channel_id: u64) -> (r: Option<&Channel>)
        ensures
            (r is Some <==> key_index(self@.channels, channel_id, 0) is Some),
            r matches Some(c) ==> (key_index(self@.channels, channel_id, 0) matches Some(i) && *c
                == self@.channels[i].1),
    {
        let mut i: usize = 0;
        while i < self.channels.len()
            invariant
                i <= self.channels@.len(),
                key_index(self@.channels, channel_id, 0) == key_index(
                    self@.channels,
                    channel_id,
                    i as int,
                ),
            decreases self.channels@.len() - i,
        {
            if self.channels[i].0 == channel_id {
                return Some(&self.channels[i].1);
            }
            i = i + 1;
        }
        None
    }

    /// The profile of a user, if one is kept.
    pub fn user(&self, user_id: u64) -> (r: Option<&User>)
        ensures
            (r is Some <==> key_index(self@.users, user_id, 0) is Some),
            r matches Some(u) ==> (key_index(self@.users, user_id, 0) matches Some(i) && *u
                == self@.users[i].1),
    {
        let mut i: usize = 0;
        while i < self.users.len()
            invariant
                i <= self.users@.len(),
                key_index(self@.users, user_id, 0) == key_index(self@.users, user_id, i as int),
            decreases self.users@.len() - i,
        {
            if self.users[i].0 == user_id {
                return Some(&self.users[i].1);
            }
            i = i + 1;
        }
        None
    }

    /// The configuration of a channel, created empty at first use.
    pub fn channel_mut(&mut self, channel_id: u64) -> (c: &mut Channel)
        ensures
            key_index(old(self)@.channels, channel_id, 0) matches Some(i) ==> {
                &&& *c == old(self)@.channels[i].1
                &&& final(self)@ == (GuildView {
                    channels: old(self)@.channels.update(i, (channel_id, *final(c))),
                    ..old(self)@
                })
            },
            key_index(old(self)@.channels, channel_id, 0) is None ==> {
                &&& c.properties@ == Seq::<Property>::empty()
                &&& final(self)@ == (GuildView {
                    channels: old(self)@.channels.push((channel_id, *final(c))),
                    ..old(self)@
                })
            },
    {
        let mut i: usize = 0;
        let mut found: bool = false;
        while i < self.channels.len() && !found
            invariant
                i <= self.channels@.len(),
                *self == *old(self),
                key_index(self@.channels, channel_id, 0) == (if found {
                    Some(i as int)
                } else {
                    key_index(self@.channels, channel_id, i as int)
                }),
                found ==> i < self.channels@.len() && self@.channels[i as int].0 == channel_id,
            decreases self.channels@.len() - i + (if found {
                0int
            } else {
                1int
            }),
        {
            if self.channels[i].0 == channel_id {
                found = true;
            } else {
                i = i + 1;
            }
        }
        if !found {
            i = self.channels.len();
            self.channels.push((channel_id, Channel { properties: Vec::new() }));
            proof {
                let base = old(self)@.channels;
                assert forall|d: (u64, Channel), x: (u64, Channel)|
                    #[trigger] base.push(d).update(base.len() as int, x) =~= base.push(x) by {}
            }
        }
        let entry = &mut self.channels[i];
        &mut entry.1
    }

    /// The profile of a user, created empty at first use.
    pub fn user_mut(&mut self, user_id: u64) -> (u: &mut User)
        ensures
            key_index(old(self)@.users, user_id, 0) matches Some(i) ==> {
                &&& *u == old(self)@.users[i].1
                &&& final(self)@ == (GuildView {
                    users: old(self)@.users.update(i, (user_id, *final(u))),
                    ..old(self)@
                })
            },
            key_index(old(self)@.users, user_id, 0) is None ==> {
                &&& u.birthday is None && u.phone_number is None
                &&& final(self)@ == (GuildView {
                    users: old(self)@.users.push((user_id, *final(u))),
                    ..old(self)@
                })
            },
    {
        let mut i: usize = 0;
        let mut found: bool = false;
        while i < self.users.len() && !found
            invariant
                i <= self.users@.len(),
                *self == *old(self),
                key_index(self@.users, user_id, 0) == (if found {
                    Some(i as int)
                } else {
                    key_index(self@.users, user_id, i as int)
                }),
                found ==> i < self.users@.len() && self@.users[i as int].0 == user_id,
            decreases self.users@.len() - i + (if found {
                0int
            } else {
                1int
            }),
        {
            if self.users[i].0 == user_id {
                found = true;
            } else {
                i = i + 1;
            }
        }
        if !found {
            i = self.users.len();
            self.users.push((user_id, User { birthday: None, phone_number: None }));
            proof {
                let base = old(self)@.users;
                assert forall|d: (u64, User), x: (u64, User)|
                    #[trigger] base.push(d).update(base.len() as int, x) =~= base.push(x) by {}
            }
        }
        let entry = &mut self.users[i];
        &mut entry.1
    }

    /// Whether this room queues plain messages sent to the given channel.
    pub fn is_song_channel(&self, channel_id: u64) -> (b: bool)
        ensures
            b == (self.channel_song == Some(channel_id)),
    {
        match self.channel_song {
            Some(c) => c == channel_id,
            None => false,
        }
    }

    /// Occupies the empty slot with a request about to resolve.
    pub fn song_now_wait(&mut self, request: Request)
        requires
            old(self).song_now is None,
        ensures
            final(self)@ == spec_now_wait(old(self)@, request),
    {
        self.song_now = Some(Now::Waiting { request });
        proof {
            assert(self@ =~= spec_now_wait(old(self)@, request));
        }
    }

    /// Moves the waiting request onto its streaming track, marking it
    /// playing.
    pub fn song_now_play(&mut self, track: u64)
        requires
            old(self).song_now matches Some(n) && n is Waiting,
        ensures
            final(self)@ == spec_now_play(old(self)@, track),
    {
        let n = self.song_now.take();
        match n {
            Some(Now::Waiting { mut request }) => {
                request.state = RequestState::Playing;
                self.song_now = Some(Now::Playing { track, request });
            },
            other => {
                self.song_now = other;
            },
        }
        proof {
            assert(self@ =~= spec_now_play(old(self)@, track));
        }
    }

    /// Clears the slot on natural completion.  The request is returned
    /// marked done, for the embedder to update its indicator.
    pub fn song_now_complete(&mut self) -> (r: Option<Request>)
        ensures
            final(self)@ == spec_now_complete(old(self)@).0,
            r == spec_now_complete(old(self)@).1,
    {
        let n = self.song_now.take();
        let r = match n {
            Some(n) => {
                let mut request = match n {
                    Now::Waiting { request } => request,
                    Now::Playing { track: _, request } => request,
                };
                request.state = RequestState::Done;
                Some(request)
            },
            None => None,
        };
        proof {
            assert(self@ =~= spec_now_complete(old(self)@).0);
        }
        r
    }

    /// Clears the slot on cancellation.  The request is returned marked
    /// canceled; the caller cancels the conversion job backing it, if any
    /// (`Request::cancel` names it), and updates its indicator.
    pub fn song_now_cancel(&mut self) -> (r: Option<Request>)
        ensures
            final(self)@ == spec_now_cancel(old(self)@).0,
            r == spec_now_cancel(old(self)@).1,
    {
        let n = self.song_now.take();
        let r = match n {
            Some(n) => {
                let mut request = match n {
                    Now::Waiting { request } => request,
                    Now::Playing { track: _, request } => request,
                };
                request.state = RequestState::Canceled;
                Some(request)
            },
            None => None,
        };
        proof {
            assert(self@ =~= spec_now_cancel(old(self)@).0);
        }
        r
    }

    /// Drains the whole queue.  The drained requests are returned marked
    /// canceled, in their queue order, for the embedder to cancel their
    /// jobs and update their indicators.
    pub fn song_queue_clear(&mut self) -> (r: Vec<Request>)
        ensures
            final(self)@ == spec_queue_clear(old(self)@).0,
            r@ == spec_queue_clear(old(self)@).1,
    {
        let ghost orig = self.song_queue@;
        let mut out: Vec<Request> = Vec::new();
        while self.song_queue.len() > 0
            invariant
                out@.len() <= orig.len(),
                self.id == old(self).id,
                self.channels == old(self).channels,
                self.channel_notify == old(self).channel_notify,
                self.channel_song == old(self).channel_song,
                self.users == old(self).users,
                self.song_now == old(self).song_now,
                self.voice == old(self).voice,
                self.song_queue@ == orig.skip(out@.len() as int),
                out@ == orig.take(out@.len() as int).map_values(
                    |r: Request| with_state(r, RequestState::Canceled),
                ),
            decreases orig.len() - out@.len(),
        {
            let next = self.song_queue.pop_front();
            match next {
                Some(mut request) => {
                    proof {
                        let i = out@.len() as int;
                        assert(orig.skip(i)[0] == orig[i]);
                        assert(orig.skip(i).drop_first() =~= orig.skip(i + 1));
                    }
                    request.state = RequestState::Canceled;
                    out.push(request);
                    proof {
                        let i = out@.len() as int;
                        assert(orig.take(i).map_values(
                            |r: Request| with_state(r, RequestState::Canceled),
                        ) =~= orig.take(i - 1).map_values(
                            |r: Request| with_state(r, RequestState::Canceled),
                        ).push(with_state(orig[i - 1], RequestState::Canceled)));
                    }
                },
                None => {},
            }
        }
        proof {
            assert(out@.len() == orig.len());
            assert(orig.take(orig.len() as int) =~= orig);
            assert(self.song_queue@ =~= Seq::<Request>::empty());
            assert(self@ =~= spec_queue_clear(old(self)@).0);
        }
        out
    }

    /// Removes the chosen request — named by its origin message — from
    /// the queue, re-validating that it is still queued: if it is not,
    /// nothing changes and the caller retries its selection.
    pub fn song_queue_take(&mut self, chosen: u64) -> (r: Option<Request>)
        ensures
            final(self)@ == spec_queue_take(old(self)@, chosen).0,
            r == spec_queue_take(old(self)@, chosen).1,
    {
        let mut i: usize = 0;
        loop
            invariant
                i <= self.song_queue@.len(),
                *self == *old(self),
                msg_index(self.song_queue@, chosen, 0) == msg_index(
                    self.song_queue@,
                    chosen,
                    i as int,
                ),
            decreases self.song_queue@.len() - i,
        {
            if i >= self.song_queue.len() {
                proof {
                    assert(self@ =~= spec_queue_take(old(self)@, chosen).0);
                }
                return None;
            }
            if self.song_queue[i].message_id == chosen {
                let r = self.song_queue.remove(i);
                proof {
                    assert(self@ =~= spec_queue_take(old(self)@, chosen).0);
                }
                return r;
            }
            i = i + 1;
        }
    }

    /// Attaches the session's voice connection to a channel; idempotent
    /// when already connected there, switching otherwise.
    pub fn join(&mut self, channel_id: u64) -> (r: JoinOutcome)
        ensures
            final(self)@ == (GuildView { voice: Some(channel_id), ..old(self)@ }),
            r == (if old(self).voice == Some(channel_id) {
                JoinOutcome::AlreadyConnected
            } else {
                JoinOutcome::Joined
            }),
    {
        let already = match self.voice {
            Some(c) => c == channel_id,
            None => false,
        };
        self.voice = Some(channel_id);
        proof {
            assert(self@ =~= (GuildView { voice: Some(channel_id), ..old(self)@ }));
        }
        if already {
            JoinOutcome::AlreadyConnected
        } else {
            JoinOutcome::Joined
        }
    }

    /// Releases the session's voice connection.
    pub fn leave(&mut self)
        ensures
            final(self)@ == (GuildView { voice: None, ..old(self)@ }),
    {
        self.voice = None;
        proof {
            assert(self@ =~= (GuildView { voice: None, ..old(self)@ }));
        }
    }

    /// The disconnect notification: cancels the slot, drains the queue
    /// and releases the connection.  Returns the canceled slot request
    /// and the drained queue, all marked canceled, for the embedder to
    /// cancel their jobs and update their indicators.  The session does
    /// not reconnect by itself.
    pub fn voice_disconnected(&mut self) -> (r: (Option<Request>, Vec<Request>))
        ensures
            final(self)@ == spec_disconnect(old(self)@).0,
            r.0 == spec_disconnect(old(self)@).1,
            r.1@ == spec_disconnect(old(self)@).2,
    {
        let current = self.song_now_cancel();
        let drained = self.song_queue_clear();
        self.voice = None;
        proof {
            assert(self@ =~= spec_disconnect(old(self)@).0);
        }
        (current, drained)
    }

    /// Reacts to the deletion of a request's origin message: a queued
    /// request is removed; if the slot holds the request, the session is
    /// left untouched and the caller must advance it.
    pub fn song_message_deleted(&mut self, message_id: u64) -> (r: DeleteOutcome)
        ensures
            final(self)@ == spec_message_deleted(old(self)@, message_id).0,
            r == spec_message_deleted(old(self)@, message_id).1,
    {
        let held = match &self.song_now {
            Some(n) => n.request().message_id == message_id,
            None => false,
        };
        if held {
            return DeleteOutcome::AdvanceCurrent;
        }
        match self.song_queue_take(message_id) {
            Some(_) => DeleteOutcome::Removed,
            None => DeleteOutcome::NotFound,
        }
    }
}

} // verus!

//! What holds of the service whatever its visitors do: laws that relate
//! several transitions, stated over the model and proved.
use crate::clock::age;
use crate::clock::TimeStamp;
use crate::config::Config;
use crate::message::MessageModel;
use crate::model::Placement;
use crate::model::Reaped;
use crate::model::StateModel;
use crate::room::departure_text;
use crate::room::keep_newest;
use crate::room::system_message;
use crate::room::RoomModel;
use crate::room::RoomPhase;
use crate::keys::distinct;
use crate::user::UserModel;
use vstd::prelude::*;

verus! {

/// One request for a room.
pub struct Request {
    pub visitor: Seq<char>,
    pub now: TimeStamp,
    pub fresh: Seq<char>,
}

/// One message on its way into a ledger.
pub struct Post {
    pub sender: Seq<char>,
    pub text: Seq<char>,
    pub now: TimeStamp,
}

impl Post {
    /// The message as the ledger takes it in: unseen.
    pub open spec fn message(self) -> MessageModel {
        MessageModel { sender: Some(self.sender), seen: false, time: self.now, msg: self.text }
    }
}

/// The state after `requests` were served one after the other.
pub open spec fn served(s: StateModel, requests: Seq<Request>) -> StateModel
    decreases requests.len(),
{
    if requests.len() == 0 {
        s
    } else {
        let last = requests.last();
        served(s, requests.drop_last()).assigned(last.visitor, last.now, last.fresh)
    }
}

/// The room after `posts` were written one after the other.
pub open spec fn posted_all(room: RoomModel, posts: Seq<Post>, capacity: nat) -> RoomModel
    decreases posts.len(),
{
    if posts.len() == 0 {
        room
    } else {
        let last = posts.last();
        posted_all(room, posts.drop_last(), capacity).posted(
            last.sender,
            last.text,
            last.now,
            capacity,
        )
    }
}

/// Serving one request keeps the slot's invariant: the slot holds at most one
/// room, and that room has exactly one participant and no terminator.
pub proof fn law_request_keeps_slot(s: StateModel, visitor: Seq<char>, now: TimeStamp, fresh: Seq<char>)
    requires
        s.slot_ok(),
    ensures
        s.assigned(visitor, now, fresh).slot_ok(),
{
    let placed = s.placed(visitor, now, fresh);
    match s.placement(visitor, fresh) {
        Placement::Waiting | Placement::Paired => {
            match s.waiting() {
                Some(r) => {
                    let room = s.chats.get(r).joined(visitor);
                    if s.chats.get(r).users.contains(visitor) {
                    } else {
                        assert(room.users.len() == 2);
                    }
                },
                None => {},
            }
        },
        _ => {},
    }
    assert(placed.slot_ok());
    if s.placement(visitor, fresh) == Placement::Paired {
        assert(placed.next_room is None);
    }
}

/// Whatever requests for a room are served, from a state in which the slot's
/// invariant holds, for one from the empty state, it holds afterwards: the slot
/// holds at most one room, and that room has exactly one participant and no
/// terminator.
pub proof fn law_slot_holds_one_waiting_room(s: StateModel, requests: Seq<Request>)
    requires
        s.slot_ok(),
    ensures
        served(s, requests).slot_ok(),
        StateModel::empty().slot_ok(),
    decreases requests.len(),
{
    if requests.len() > 0 {
        let last = requests.last();
        law_slot_holds_one_waiting_room(s, requests.drop_last());
        law_request_keeps_slot(
            served(s, requests.drop_last()),
            last.visitor,
            last.now,
            last.fresh,
        );
    }
}

/// Pairing serves the first two: with the slot empty, two distinct visitors
/// without a room who ask one after the other end up in the same room, the one
/// opened for the first, which then holds exactly the two and has left the slot.
pub proof fn law_first_two_are_paired(
    s: StateModel,
    a: Seq<char>,
    ta: TimeStamp,
    fa: Seq<char>,
    b: Seq<char>,
    tb: TimeStamp,
    fb: Seq<char>,
)
    requires
        s.wf(),
        s.next_room is None,
        a != b,
        s.users.contains(a),
        s.users.contains(b),
        s.users.get(a).room_id is None,
        s.users.get(b).room_id is None,
        !s.chats.contains(fa),
    ensures
        s.placement(a, fa) == Placement::Waiting,
        s.assigned(a, ta, fa).placement(b, fb) == Placement::Paired,
        ({
            let after = s.assigned(a, ta, fa).assigned(b, tb, fb);
            &&& after.room_of(a) == Some(fa)
            &&& after.room_of(b) == Some(fa)
            &&& after.chats.get(fa).users == seq![a, b]
            &&& after.chats.get(fa).phase() == RoomPhase::Active
            &&& after.next_room is None
        }),
{
    let s1 = s.assigned(a, ta, fa);
    assert(s1 == s.placed(a, ta, fa));
    assert(s1.waiting() == Some(fa));
    let room1 = s1.chats.get(fa);
    assert(room1 == RoomModel::fresh(fa, a, ta));
    assert(!room1.users.contains(b)) by {
        if room1.users.contains(b) {
            let i = choose|i: int| 0 <= i < room1.users.len() && room1.users[i] == b;
            assert(room1.users[0] == a);
        }
    }
    let room2 = room1.joined(b);
    assert(room2.users =~= seq![a, b]);
    let s2 = s1.placed(b, tb, fb);
    assert(s2.chats.get(fa) == room2);
    let after = s1.assigned(b, tb, fb);
    assert(after == s2.read(b));
    assert(s2.room_of(b) == Some(fa));
    assert(after.chats.get(fa) == room2.read_by(b));
}

/// A room that has two participants takes in no third: while the slot's
/// invariant holds, a request leaves the participants of every such room as
/// they are.
pub proof fn law_full_room_takes_nobody(
    s: StateModel,
    visitor: Seq<char>,
    now: TimeStamp,
    fresh: Seq<char>,
    room: Seq<char>,
)
    requires
        s.slot_ok(),
        s.chats.contains(room),
        s.chats.get(room).users.len() >= 2,
    ensures
        s.assigned(visitor, now, fresh).chats.contains(room),
        s.assigned(visitor, now, fresh).chats.get(room).users == s.chats.get(room).users,
{
    let placed = s.placed(visitor, now, fresh);
    assert(placed.chats.contains(room) && placed.chats.get(room).users == s.chats.get(
        room,
    ).users);
    assert(s.assigned(visitor, now, fresh).chats.get(room).users == placed.chats.get(
        room,
    ).users);
}

/// Leaving twice is leaving once.
pub proof fn law_leave_is_idempotent(s: StateModel, visitor: Seq<char>, first: TimeStamp, second: TimeStamp)
    ensures
        s.left(visitor, first).left(visitor, second) == s.left(visitor, first),
{
}

/// Leaving keeps the slot's invariant: the slot never keeps a room that
/// somebody has left, and never points at a room that has gone.
pub proof fn law_leave_keeps_slot(s: StateModel, visitor: Seq<char>, now: TimeStamp)
    requires
        s.slot_ok(),
    ensures
        s.left(visitor, now).slot_ok(),
{
    let after = s.left(visitor, now);
    match s.room_of(visitor) {
        Some(room) => {
            if after.next_room is Some {
                let w = after.next_room->0;
                assert(s.next_room == Some(w) && w != room);
                assert(after.chats.contains(w));
                assert(after.chats.get(w) == s.chats.get(w));
            }
        },
        None => {},
    }
}

/// One who waits alone and leaves takes the room along: the registry no
/// longer holds it, and the slot is empty for the next visitor.
pub proof fn law_waiter_leaves_nothing_behind(
    s: StateModel,
    visitor: Seq<char>,
    now: TimeStamp,
    room: Seq<char>,
)
    requires
        s.wf(),
        s.room_of(visitor) == Some(room),
        s.chats.get(room).users == seq![visitor],
        s.next_room == Some(room),
    ensures
        !s.left(visitor, now).chats.contains(room),
        s.left(visitor, now).next_room is None,
        s.left(visitor, now).room_ref(visitor) is None,
{
    assert(s.chats.get(room).users[0] == visitor);
    s.chats.get(room).lemma_others(visitor);
}

/// When both have left, the room is gone. After the first of two participants
/// has left, the room is still there with the other as its one participant,
/// terminated by the one who left; after the other has left too, the registry
/// no longer holds it, and neither of the two has an inbox.
pub proof fn law_both_leave(
    s: StateModel,
    a: Seq<char>,
    ta: TimeStamp,
    b: Seq<char>,
    tb: TimeStamp,
    room: Seq<char>,
    now: TimeStamp,
)
    requires
        s.wf(),
        a != b,
        s.room_of(a) == Some(room),
        s.room_of(b) == Some(room),
        s.chats.get(room).users.contains(a),
        s.chats.get(room).users.contains(b),
        s.chats.get(room).users.len() == 2,
        s.chats.get(room).terminator is None,
    ensures
        ({
            let one = s.left(a, ta);
            &&& one.chats.contains(room)
            &&& one.chats.get(room) == s.chats.get(room).terminated(a, ta)
            &&& one.chats.get(room).users == seq![b]
            &&& one.chats.get(room).terminator == Some(a)
            &&& one.chats.get(room).messages == s.chats.get(room).messages.push(
                system_message(departure_text(), ta),
            )
            &&& one.chats.get(room).peers_of(b) == 0
            &&& one.phase(b) == Some(RoomPhase::Terminated)
            &&& one.room_ref(a) is None
            &&& one.room_of(b) == Some(room)
            &&& one.users.get(b) == s.users.get(b)
        }),
        ({
            let both = s.left(a, ta).left(b, tb);
            &&& !both.chats.contains(room)
            &&& both.inbox(a, now) is None
            &&& both.inbox(b, now) is None
            &&& both.touched(a, now).inbox(a, now) is None
            &&& both.touched(b, now).inbox(b, now) is None
        }),
{
    let before = s.chats.get(room);
    before.lemma_others(a);
    assert(before.peers_of(a) == 1);
    assert(!s.leaves_last(a));
    let one = s.left(a, ta);
    let rest = before.others(a);
    assert(rest.len() == 1 && rest.contains(b));
    assert(rest =~= seq![b]) by {
        let i = choose|i: int| 0 <= i < rest.len() && rest[i] == b;
        assert(i == 0);
    }
    assert(one.chats.get(room) == before.terminated(a, ta));
    assert(one.chats.get(room).users[0] == b);
    assert(one.users.get(b) == s.users.get(b));
    assert(one.room_of(b) == Some(room));
    let both = one.left(b, tb);
    assert(one.leaves_last(b));
    assert(both.chats == one.chats.without(room));
    assert(!both.chats.contains(room));
    assert(both.users.get(b).room_id is None);
    assert(both.users.get(a) == one.users.get(a));
}

/// Posting into a bounded ledger and trimming after every message leaves what
/// trimming once at the end leaves.
pub proof fn lemma_trim_push(ledger: Seq<MessageModel>, m: MessageModel, capacity: nat)
    ensures
        keep_newest(keep_newest(ledger, capacity).push(m), capacity) == keep_newest(
            ledger.push(m),
            capacity,
        ),
{
    assert(keep_newest(keep_newest(ledger, capacity).push(m), capacity) =~= keep_newest(
        ledger.push(m),
        capacity,
    ));
}

/// The ledger keeps the newest: after a run of at least one post a room holds
/// the newest `capacity` messages of its old ledger followed by the posts, in
/// their order, whether those that gave way were seen or not.
pub proof fn law_ledger_keeps_newest(room: RoomModel, posts: Seq<Post>, capacity: nat)
    requires
        posts.len() > 0,
    ensures
        posted_all(room, posts, capacity).messages == keep_newest(
            room.messages + posts.map_values(|p: Post| p.message()),
            capacity,
        ),
        posted_all(room, posts, capacity).users == room.users,
        posted_all(room, posts, capacity).terminator == room.terminator,
    decreases posts.len(),
{
    let written = posts.map_values(|p: Post| p.message());
    let earlier = posts.drop_last();
    let last = posts.last();
    let before = room.messages + earlier.map_values(|p: Post| p.message());
    assert(before.push(last.message()) =~= room.messages + written);
    if earlier.len() == 0 {
        assert(before =~= room.messages);
        assert(posted_all(room, earlier, capacity) == room);
    } else {
        law_ledger_keeps_newest(room, earlier, capacity);
        lemma_trim_push(before, last.message(), capacity);
    }
}

/// The cap: once more messages were posted than the ledger keeps, the room
/// holds exactly `capacity` messages, and they are the last `capacity` posts.
pub proof fn law_ledger_cap(room: RoomModel, posts: Seq<Post>, capacity: nat)
    requires
        posts.len() > capacity,
    ensures
        posted_all(room, posts, capacity).messages.len() == capacity,
        posted_all(room, posts, capacity).messages == posts.map_values(
            |p: Post| p.message(),
        ).skip(posts.len() - capacity),
{
    law_ledger_keeps_newest(room, posts, capacity);
    let written = posts.map_values(|p: Post| p.message());
    let all = room.messages + written;
    assert(all.skip(all.len() - capacity) =~= written.skip(written.len() - capacity));
}

/// A post reaches one ledger: an accepted message goes into the room of its
/// author as that room's own posting rule says, every other room and every
/// visitor stay as they are, and the room goes on accepting.
pub proof fn law_post_changes_one_ledger(
    s: StateModel,
    author: Seq<char>,
    text: Seq<char>,
    now: TimeStamp,
    capacity: nat,
    other: Seq<char>,
)
    requires
        s.wf(),
        s.accepts_post(author),
    ensures
        ({
            let room = s.room_of(author)->0;
            let after = s.posted(author, text, now, capacity);
            &&& after.chats.get(room) == s.chats.get(room).posted(author, text, now, capacity)
            &&& after.users == s.users
            &&& after.next_room == s.next_room
            &&& after.chats.order == s.chats.order
            &&& after.accepts_post(author)
            &&& other != room ==> after.chats.contains(other) == s.chats.contains(other)
                && after.chats.get(other) == s.chats.get(other)
        }),
{
}

/// Fetching delivers: when one participant has posted and the other fetches
/// its messages, the post is seen from then on; the author's own fetch leaves
/// it unseen.
pub proof fn law_fetch_delivers(
    s: StateModel,
    author: Seq<char>,
    reader: Seq<char>,
    room: Seq<char>,
    text: Seq<char>,
    now: TimeStamp,
    later: TimeStamp,
    capacity: nat,
)
    requires
        s.wf(),
        author != reader,
        s.room_of(author) == Some(room),
        s.room_of(reader) == Some(room),
        s.chats.get(room).terminator is None,
        capacity > 0,
    ensures
        ({
            let sent = s.posted(author, text, now, capacity);
            let post = MessageModel { sender: Some(author), seen: false, time: now, msg: text };
            &&& sent.chats.get(room).messages.last() == post
            &&& sent.touched(reader, later).inbox(reader, later)->0[0] == post.pov(
                Some(reader),
                later,
            )
            &&& sent.fetched(reader, later).chats.get(room).messages.last() == (MessageModel {
                seen: true,
                ..post
            })
            &&& sent.fetched(author, later).chats.get(room).messages.last() == post
            &&& sent.fetched(reader, later).fetched(author, later).chats.get(
                room,
            ).messages.last() == (MessageModel { seen: true, ..post })
        }),
{
    let sent = s.posted(author, text, now, capacity);
    let ledger = s.chats.get(room).posted(author, text, now, capacity);
    assert(sent.chats.get(room) == ledger);
    law_read_receipt(s.chats.get(room), author, reader, text, now, capacity);
    let touched = sent.touched(reader, later);
    assert(touched.room_of(reader) == Some(room));
    assert(touched.chats == sent.chats);
    let own = sent.touched(author, later);
    assert(own.room_of(author) == Some(room));
    assert(own.chats == sent.chats);
    let read = sent.fetched(reader, later);
    assert(read.chats.get(room) == ledger.read_by(reader));
    let again = read.touched(author, later);
    assert(again.room_of(author) == Some(room));
    assert(again.chats == read.chats);
}

/// The read receipt: a message that one participant posted is unseen until
/// the other renders the room and seen from then on, and the author's own
/// rendering changes none of the author's messages.
pub proof fn law_read_receipt(
    room: RoomModel,
    author: Seq<char>,
    reader: Seq<char>,
    text: Seq<char>,
    now: TimeStamp,
    capacity: nat,
)
    requires
        author != reader,
        capacity > 0,
    ensures
        ({
            let sent = room.posted(author, text, now, capacity);
            &&& sent.messages.len() > 0
            &&& sent.messages.last() == (MessageModel {
                sender: Some(author),
                seen: false,
                time: now,
                msg: text,
            })
            &&& sent.read_by(author).messages.last() == sent.messages.last()
            &&& sent.read_by(reader).messages.last() == (MessageModel {
                seen: true,
                ..sent.messages.last()
            })
            &&& sent.read_by(reader).read_by(author).messages.last() == sent.read_by(
                reader,
            ).messages.last()
        }),
{
}

/// One's own rendering delivers nothing of one's own: every message that
/// `viewer` wrote is after the rendering what it was before.
pub proof fn law_own_view_changes_nothing(room: RoomModel, viewer: Seq<char>, i: int)
    requires
        0 <= i < room.messages.len(),
        room.messages[i].sender == Some(viewer),
    ensures
        room.read_by(viewer).messages[i] == room.messages[i],
{
}

/// A receipt flips once: rendering a second time changes nothing.
pub proof fn law_render_is_idempotent(room: RoomModel, viewer: Seq<char>)
    ensures
        room.read_by(viewer).read_by(viewer) == room.read_by(viewer),
{
    assert(room.read_by(viewer).read_by(viewer).messages =~= room.read_by(viewer).messages);
}

/// The sweep adds nobody: a visitor that the directory does not hold is not
/// held after any part of a sweep.
pub proof fn lemma_sweep_adds_nobody(
    s: StateModel,
    visitors: Seq<Seq<char>>,
    now: TimeStamp,
    config: Config,
    visitor: Seq<char>,
)
    requires
        !s.users.contains(visitor),
    ensures
        !s.swept(visitors, now, config).users.contains(visitor),
    decreases visitors.len(),
{
    if visitors.len() > 0 {
        lemma_sweep_adds_nobody(
            s.reaped(visitors[0], now, config),
            visitors.drop_first(),
            now,
            config,
            visitor,
        );
    }
}

/// A silent visitor without a room is swept: whoever refers to no room and
/// has been silent for longer than the outside bound is gone after a sweep
/// that reaches it.
pub proof fn law_sweep_removes_idle_loner(
    s: StateModel,
    visitors: Seq<Seq<char>>,
    now: TimeStamp,
    config: Config,
    visitor: Seq<char>,
)
    requires
        s.wf(),
        visitors.contains(visitor),
        s.users.contains(visitor),
        s.users.get(visitor).room_id is None,
        age(now, s.users.get(visitor).last_seen) > config.outside_ms(),
    ensures
        !s.swept(visitors, now, config).users.contains(visitor),
    decreases visitors.len(),
{
    let first = visitors[0];
    let next = s.reaped(first, now, config);
    if first == visitor {
        assert(s.verdict(visitor, now, config) == Reaped::Visitor);
        s.users.lemma_without_wf(visitor);
        lemma_sweep_adds_nobody(next, visitors.drop_first(), now, config, visitor);
    } else {
        s.lemma_reaped_wf(first, now, config);
        assert(next.users.contains(visitor) && next.users.get(visitor) == s.users.get(visitor));
        let i = choose|i: int| 0 <= i < visitors.len() && visitors[i] == visitor;
        assert(visitors.drop_first()[i - 1] == visitor);
        law_sweep_removes_idle_loner(next, visitors.drop_first(), now, config, visitor);
    }
}

/// A silent participant times out: whoever has been silent in an active room
/// for longer than the inside bound is removed by the sweep's step, while the
/// room stays with the other participant alone, terminated by the one
/// removed, and with one more message, the room's own, at the end of the
/// ledger. The peer's record stays as it is.
pub proof fn law_timeout_leaves_room_for_peer(
    s: StateModel,
    now: TimeStamp,
    config: Config,
    visitor: Seq<char>,
    peer: Seq<char>,
    room: Seq<char>,
)
    requires
        s.wf(),
        visitor != peer,
        s.room_of(visitor) == Some(room),
        s.users.contains(peer),
        s.chats.get(room).terminator is None,
        s.chats.get(room).users.len() == 2,
        s.chats.get(room).users.contains(visitor),
        s.chats.get(room).users.contains(peer),
        age(now, s.users.get(visitor).last_seen) > config.inside_ms(),
    ensures
        s.verdict(visitor, now, config) == Reaped::TimedOut,
        ({
            let after = s.reaped(visitor, now, config);
            &&& !after.users.contains(visitor)
            &&& after.users.contains(peer)
            &&& after.users.get(peer) == s.users.get(peer)
            &&& after.chats.contains(room)
            &&& after.chats.get(room).terminator == Some(visitor)
            &&& after.chats.get(room).users == seq![peer]
            &&& after.chats.get(room).messages == s.chats.get(room).messages.push(
                system_message(departure_text(), now),
            )
            &&& after.next_room == s.next_room
        }),
{
    s.users.lemma_without_wf(visitor);
    let before = s.chats.get(room);
    before.lemma_others(visitor);
    let rest = before.others(visitor);
    assert(rest.len() == 1 && rest.contains(peer));
    assert(rest =~= seq![peer]) by {
        let i = choose|i: int| 0 <= i < rest.len() && rest[i] == peer;
        assert(i == 0);
    }
}

/// The sweep keeps the slot's invariant.
pub proof fn law_sweep_keeps_slot(
    s: StateModel,
    visitors: Seq<Seq<char>>,
    now: TimeStamp,
    config: Config,
)
    requires
        s.wf(),
        s.slot_ok(),
    ensures
        s.swept(visitors, now, config).slot_ok(),
    decreases visitors.len(),
{
    if visitors.len() > 0 {
        let first = visitors[0];
        let next = s.reaped(first, now, config);
        s.lemma_reaped_wf(first, now, config);
        lemma_reaped_keeps_slot(s, first, now, config);
        law_sweep_keeps_slot(next, visitors.drop_first(), now, config);
    }
}

/// One step of the sweep keeps the slot's invariant.
pub proof fn lemma_reaped_keeps_slot(
    s: StateModel,
    visitor: Seq<char>,
    now: TimeStamp,
    config: Config,
)
    requires
        s.wf(),
        s.slot_ok(),
    ensures
        s.reaped(visitor, now, config).slot_ok(),
{
    let after = s.reaped(visitor, now, config);
    let r = s.room_ref(visitor)->0;
    match s.verdict(visitor, now, config) {
        Reaped::Teardown | Reaped::StraySlot | Reaped::TimedOut => {
            assert(s.next_room != Some(r));
            if s.next_room is Some {
                let w = s.next_room->0;
                assert(after.chats.contains(w));
                assert(after.chats.get(w) == s.chats.get(w));
            }
        },
        _ => {},
    }
}

/// Whether `visitor` and `peer` share the active room `room`, which stands in
/// the registry as `shared`, while the directory holds `peer` as `record`.
pub open spec fn pair_active(
    s: StateModel,
    visitor: Seq<char>,
    peer: Seq<char>,
    room: Seq<char>,
    shared: RoomModel,
    record: UserModel,
) -> bool {
    &&& visitor != peer
    &&& s.room_of(visitor) == Some(room)
    &&& s.room_of(peer) == Some(room)
    &&& s.users.get(peer) == record
    &&& s.chats.get(room) == shared
    &&& shared.terminator is None
    &&& shared.users.len() == 2
}

/// Whether `visitor` has gone and left `peer`, held by the directory as
/// `record`, alone in `room`, which stands in the registry as `kept`.
pub open spec fn pair_broken(
    s: StateModel,
    visitor: Seq<char>,
    peer: Seq<char>,
    room: Seq<char>,
    kept: RoomModel,
    record: UserModel,
) -> bool {
    &&& visitor != peer
    &&& !s.users.contains(visitor)
    &&& s.room_of(peer) == Some(room)
    &&& s.users.get(peer) == record
    &&& s.chats.get(room) == kept
    &&& kept.terminator == Some(visitor)
}

/// Who is listed in a room of two is one of the two.
proof fn lemma_one_of_two(users: Seq<Seq<char>>, a: Seq<char>, b: Seq<char>, c: Seq<char>)
    requires
        distinct(users),
        users.len() == 2,
        a != b,
        users.contains(a),
        users.contains(b),
        users.contains(c),
    ensures
        c == a || c == b,
{
    let i = choose|i: int| 0 <= i < users.len() && users[i] == a;
    let j = choose|j: int| 0 <= j < users.len() && users[j] == b;
    let k = choose|k: int| 0 <= k < users.len() && users[k] == c;
    assert(i != j);
}

/// Once one of a pair has timed out, the rest of the sweep leaves the other,
/// who is within both bounds, and the room as they are.
proof fn lemma_sweep_after_timeout(
    s: StateModel,
    visitors: Seq<Seq<char>>,
    now: TimeStamp,
    config: Config,
    visitor: Seq<char>,
    peer: Seq<char>,
    room: Seq<char>,
    kept: RoomModel,
    record: UserModel,
)
    requires
        s.sound(),
        pair_broken(s, visitor, peer, room, kept, record),
        age(now, record.last_seen) <= config.outside_ms(),
    ensures
        pair_broken(s.swept(visitors, now, config), visitor, peer, room, kept, record),
    decreases visitors.len(),
{
    if visitors.len() > 0 {
        let first = visitors[0];
        let next = s.reaped(first, now, config);
        s.lemma_reaped_sound(first, now, config);
        if first != peer && s.users.contains(first) && s.users.get(first).room_id is Some {
            let own = s.users.get(first).room_id->0;
            assert(s.chats.contains(own) && s.chats.get(own).users.contains(first));
            if own == room {
                assert(kept.users.len() == 1);
                assert(kept.users.contains(peer));
                let i = choose|i: int| 0 <= i < kept.users.len() && kept.users[i] == first;
                let j = choose|j: int| 0 <= j < kept.users.len() && kept.users[j] == peer;
                assert(i == j);
            }
            assert(own != room);
        }
        assert(pair_broken(next, visitor, peer, room, kept, record));
        lemma_sweep_after_timeout(
            next,
            visitors.drop_first(),
            now,
            config,
            visitor,
            peer,
            room,
            kept,
            record,
        );
    }
}

/// A sweep times the silent one out and leaves the room to the peer: when
/// two share an active room, one has been silent for longer than the inside
/// bound and the other is within both bounds, then after a sweep that
/// reaches the silent one it has gone from the directory, the peer's record
/// is what it was, and the room is still there with the peer as its one
/// participant, terminated by the one who timed out, and with exactly one
/// more message, the room's own, at the end of its ledger.
pub proof fn law_sweep_times_out(
    s: StateModel,
    visitors: Seq<Seq<char>>,
    now: TimeStamp,
    config: Config,
    visitor: Seq<char>,
    peer: Seq<char>,
    room: Seq<char>,
)
    requires
        s.sound(),
        visitors.contains(visitor),
        pair_active(s, visitor, peer, room, s.chats.get(room), s.users.get(peer)),
        age(now, s.users.get(visitor).last_seen) > config.inside_ms(),
        age(now, s.users.get(peer).last_seen) <= config.inside_ms(),
        age(now, s.users.get(peer).last_seen) <= config.outside_ms(),
    ensures
        ({
            let after = s.swept(visitors, now, config);
            &&& !after.users.contains(visitor)
            &&& after.users.contains(peer)
            &&& after.users.get(peer) == s.users.get(peer)
            &&& after.chats.contains(room)
            &&& after.chats.get(room).users == seq![peer]
            &&& after.chats.get(room).terminator == Some(visitor)
            &&& after.chats.get(room).messages == s.chats.get(room).messages.push(
                system_message(departure_text(), now),
            )
        }),
    decreases visitors.len(),
{
    let shared = s.chats.get(room);
    let record = s.users.get(peer);
    let first = visitors[0];
    let next = s.reaped(first, now, config);
    s.lemma_reaped_sound(first, now, config);
    assert(shared.users.contains(visitor));
    assert(shared.users.contains(peer));
    if first == visitor {
        law_timeout_leaves_room_for_peer(s, now, config, visitor, peer, room);
        let kept = shared.terminated(visitor, now);
        assert(pair_broken(next, visitor, peer, room, kept, record));
        lemma_sweep_after_timeout(
            next,
            visitors.drop_first(),
            now,
            config,
            visitor,
            peer,
            room,
            kept,
            record,
        );
    } else {
        if first != peer && s.users.contains(first) && s.users.get(first).room_id is Some {
            let own = s.users.get(first).room_id->0;
            assert(s.chats.contains(own) && s.chats.get(own).users.contains(first));
            if own == room {
                lemma_one_of_two(shared.users, visitor, peer, first);
            }
            assert(own != room);
        }
        assert(pair_active(next, visitor, peer, room, shared, record));
        assert(next.users.get(visitor) == s.users.get(visitor));
        let i = choose|i: int| 0 <= i < visitors.len() && visitors[i] == visitor;
        assert(visitors.drop_first()[i - 1] == visitor);
        law_sweep_times_out(next, visitors.drop_first(), now, config, visitor, peer, room);
    }
}

} // verus!

//! The service's state and its transitions: the session directory, the room
//! registry, the matchmaking slot and the idle sweep.
use crate::clock::TimeStamp;
use crate::clock::elapsed;
use crate::config::Config;
use crate::directory::Directory;
use crate::form::form_fields;
use crate::form::parse_message;
use crate::ident::gen_rand_id_safe;
use crate::ident::holds_id;
use crate::ident::is_id;
use crate::laws::law_leave_keeps_slot;
use crate::laws::law_request_keeps_slot;
use crate::laws::law_sweep_keeps_slot;
use crate::laws::lemma_reaped_keeps_slot;
use crate::message::ChatId;
use crate::message::MessageView;
use crate::message::MessageViewModel;
use crate::message::UserId;
use crate::message::copy_id;
use crate::model::Placement;
use crate::model::Reaped;
use crate::model::StateModel;
use crate::model::StatusModel;
use crate::model::room_line;
use crate::model::user_line;
use crate::room::ChatRoom;
use crate::room::RoomPhase;
use crate::user::UserState;
use vstd::prelude::*;

verus! {

/// Everything the service remembers: who is known, which rooms exist, and which
/// room waits for a second participant.
#[derive(Clone, Debug)]
pub struct AppState {
    users: Directory<UserState>,
    chats: Directory<ChatRoom>,
    next_room: Option<ChatId>,
}

impl View for AppState {
    type V = StateModel;

    closed spec fn view(&self) -> StateModel {
        StateModel {
            users: self.users@,
            chats: self.chats@,
            next_room: self.next_room.deep_view(),
        }
    }
}

/// What a request for a room comes back with.
#[derive(Clone, Debug)]
pub struct Assignment {
    /// How the request ended.
    pub placement: Placement,
    /// The room the visitor was placed in, if it was placed.
    pub room: Option<ChatId>,
    /// The backlog, newest first, where the visitor completed a pair.
    pub messages: Vec<MessageView>,
}

/// What a visitor is told of its room.
#[derive(Clone, Debug)]
pub struct RoomStatus {
    /// Where the room stands in its life.
    pub state: RoomPhase,
    /// The ledger as the visitor sees it, newest first.
    pub messages: Vec<MessageView>,
    /// How many other participants the room has.
    pub peer_count: usize,
}

impl View for RoomStatus {
    type V = StatusModel;

    open spec fn view(&self) -> StatusModel {
        StatusModel {
            state: self.state,
            messages: self.messages.deep_view(),
            peer_count: self.peer_count as nat,
        }
    }
}

impl DeepView for RoomStatus {
    type V = StatusModel;

    open spec fn deep_view(&self) -> StatusModel {
        self@
    }
}

/// One line of the idle sweep's report.
#[derive(Clone, Debug)]
pub struct SweepEvent {
    /// The visitor the sweep dealt with.
    pub visitor: UserId,
    /// What the sweep did about it.
    pub outcome: Reaped,
}

impl View for SweepEvent {
    type V = (Seq<char>, Reaped);

    open spec fn view(&self) -> (Seq<char>, Reaped) {
        (self.visitor@, self.outcome)
    }
}

impl DeepView for SweepEvent {
    type V = (Seq<char>, Reaped);

    open spec fn deep_view(&self) -> (Seq<char>, Reaped) {
        self@
    }
}

impl AppState {
    /// The invariant of the type: both collections hold each identifier once,
    /// and no room lists a participant twice.
    pub closed spec fn wf(&self) -> bool {
        &&& self.users.wf()
        &&& self.chats.wf()
        &&& self@.wf()
    }

    /// A well-formed state has a well-formed content.
    pub proof fn lemma_wf(&self)
        requires
            self.wf(),
        ensures
            self@.wf(),
    {
    }

    /// The state of a service that has seen nobody yet.
    pub fn new() -> (state: AppState)
        ensures
            state.wf(),
            state@ == StateModel::empty(),
    {
        let state = AppState { users: Directory::new(), chats: Directory::new(), next_room: None };
        proof {
            state.users.lemma_wf();
            state.chats.lemma_wf();
        }
        state
    }

    /// How many visitors the directory knows.
    pub fn visitor_count(&self) -> (n: usize)
        requires
            self.wf(),
        ensures
            n == self@.users.len(),
    {
        self.users.len()
    }

    /// How many rooms the registry holds.
    pub fn room_count(&self) -> (n: usize)
        requires
            self.wf(),
        ensures
            n == self@.chats.len(),
    {
        self.chats.len()
    }

    /// The record of `visitor`, if the directory knows it.
    pub fn visitor(&self, visitor: &str) -> (user: Option<&UserState>)
        requires
            self.wf(),
        ensures
            match user {
                Some(u) => self@.users.contains(visitor@) && u@ == self@.users.get(visitor@),
                None => !self@.users.contains(visitor@),
            },
    {
        let key = String::from_str(visitor);
        self.users.get(&key)
    }

    /// The room under the identifier `room`, if the registry holds it.
    pub fn room(&self, room: &str) -> (found: Option<&ChatRoom>)
        requires
            self.wf(),
        ensures
            match found {
                Some(r) => self@.chats.contains(room@) && r@ == self@.chats.get(room@),
                None => !self@.chats.contains(room@),
            },
    {
        let key = String::from_str(room);
        self.chats.get(&key)
    }

    /// The identifier the matchmaking slot holds.
    pub fn next_room(&self) -> (slot: &Option<ChatId>)
        ensures
            slot.deep_view() == self@.next_room,
    {
        &self.next_room
    }

    /// The identifiers of all visitors, in the order in which they were entered.
    pub fn visitor_ids(&self) -> (ids: Vec<UserId>)
        requires
            self.wf(),
        ensures
            ids.deep_view() == self@.users.order,
    {
        self.users.keys()
    }

    /// The identifiers of all rooms, in the order in which they were opened.
    pub fn room_ids(&self) -> (ids: Vec<ChatId>)
        requires
            self.wf(),
        ensures
            ids.deep_view() == self@.chats.order,
    {
        self.chats.keys()
    }

    /// Records a contact of `visitor` at `now`. Says whether the directory
    /// knows the visitor; an unknown one changes nothing.
    pub fn touch(&mut self, visitor: &str, now: TimeStamp) -> (known: bool)
        requires
            old(self).wf(),
        ensures
            final(self).wf(),
            known == old(self)@.users.contains(visitor@),
            final(self)@ == old(self)@.touched(visitor@, now),
    {
        let key = String::from_str(visitor);
        match self.users.find(&key) {
            Some(i) => {
                let user = self.users.value_at_mut(i);
                user.last_seen = now;
                proof {
                    self.users.lemma_wf();
                }
                true
            },
            None => false,
        }
    }

    /// Serves a contact that presents `cookie` at `now`, with `fresh` at hand
    /// as the identifier for a new visitor. A known cookie refreshes its
    /// visitor; anything else enters a new visitor under `fresh`. Returns the
    /// visitor's identifier and whether it is new, or `None`, with nothing
    /// changed, where `fresh` was needed and is already taken.
    pub fn get_or_create_with(&mut self, cookie: Option<&str>, now: TimeStamp, fresh: UserId) -> (r:
        Option<(UserId, bool)>)
        requires
            old(self).wf(),
        ensures
            final(self).wf(),
            r.deep_view() == old(self)@.identity(cookie.deep_view(), fresh@),
            final(self)@ == old(self)@.identified(cookie.deep_view(), now, fresh@),
    {
        match cookie {
            Some(c) => {
                if self.touch(c, now) {
                    return Some((String::from_str(c), false));
                }
            },
            None => {},
        }
        if self.users.contains_key(&fresh) {
            None
        } else {
            let user = UserState::new_at(fresh.clone(), now);
            self.users.insert(fresh.clone(), user);
            proof {
                self.users.lemma_wf();
            }
            Some((fresh, true))
        }
    }

    /// Takes `visitor` out of the directory. The visitor must not refer to a
    /// room: a room reference is torn down first, by leaving.
    pub fn remove(&mut self, visitor: &str) -> (known: bool)
        requires
            old(self).wf(),
            old(self)@.room_ref(visitor@) is None,
        ensures
            final(self).wf(),
            known == old(self)@.users.contains(visitor@),
            final(self)@ == old(self)@.removed(visitor@),
    {
        let key = String::from_str(visitor);
        let gone = self.users.remove(&key);
        proof {
            self.users.lemma_wf();
        }
        gone.is_some()
    }

    /// Where `visitor` stands in the directory and where its room stands in
    /// the registry, if the visitor is in a room.
    fn locate(&self, visitor: &UserId) -> (r: Option<(usize, usize)>)
        requires
            self.wf(),
        ensures
            match r {
                Some((ui, ri)) => {
                    &&& ui < self.users@.len()
                    &&& self.users@.order[ui as int] == visitor@
                    &&& ri < self.chats@.len()
                    &&& self@.room_of(visitor@) == Some(self.chats@.order[ri as int])
                },
                None => self@.room_of(visitor@) is None,
            },
    {
        match self.users.find(visitor) {
            Some(ui) => match &self.users.value_at(ui).room_id {
                Some(rid) => match self.chats.find(rid) {
                    Some(ri) => Some((ui, ri)),
                    None => None,
                },
                None => None,
            },
            None => None,
        }
    }

    /// Where the waiting room stands in the registry, if the slot points at one.
    fn waiting_place(&self) -> (r: Option<usize>)
        requires
            self.wf(),
        ensures
            match r {
                Some(ri) => ri < self.chats@.len() && self@.waiting() == Some(
                    self.chats@.order[ri as int],
                ),
                None => self@.waiting() is None,
            },
    {
        match &self.next_room {
            Some(rid) => self.chats.find(rid),
            None => None,
        }
    }

    /// Refers the visitor at place `ui` of the directory to `room`.
    fn refer(&mut self, ui: usize, room: ChatId)
        requires
            old(self).users.wf(),
            ui < old(self).users@.len(),
        ensures
            final(self).users.wf(),
            final(self).chats == old(self).chats,
            final(self).next_room == old(self).next_room,
            final(self).users@ == old(self).users@.put(
                old(self).users@.order[ui as int],
                old(self).users@.get(old(self).users@.order[ui as int]).placed(room@),
            ),
    {
        let user = self.users.value_at_mut(ui);
        user.room_id = Some(room);
        if user.chat_ctr < u64::MAX {
            user.chat_ctr = user.chat_ctr + 1;
        }
    }

    /// The matchmaker: places `visitor` without rendering anything.
    fn place(&mut self, visitor: &UserId, now: TimeStamp, fresh: ChatId) -> (r: (
        Placement,
        Option<ChatId>,
    ))
        requires
            old(self).wf(),
        ensures
            final(self).wf(),
            r.0 == old(self)@.placement(visitor@, fresh@),
            r.1.deep_view() == old(self)@.placed_in(visitor@, fresh@),
            final(self)@ == old(self)@.placed(visitor@, now, fresh@),
    {
        proof {
            self.users.lemma_wf();
            self.chats.lemma_wf();
            old(self)@.lemma_placed_wf(visitor@, now, fresh@);
        }
        let ui = match self.users.find(visitor) {
            Some(ui) => ui,
            None => {
                return (Placement::Unknown, None);
            },
        };
        if self.users.value_at(ui).room_id.is_some() {
            return (Placement::Occupied, None);
        }
        match self.waiting_place() {
            Some(ri) => {
                let rid = self.chats.key_at(ri).clone();
                let room = self.chats.value_at_mut(ri);
                room.add_user(visitor.clone());
                let paired = room.user_count() >= 2;
                proof {
                    self.chats.lemma_wf();
                }
                self.refer(ui, rid.clone());
                if paired {
                    self.next_room = None;
                    (Placement::Paired, Some(rid))
                } else {
                    (Placement::Waiting, Some(rid))
                }
            },
            None => {
                if self.chats.contains_key(&fresh) {
                    (Placement::Collision, None)
                } else {
                    let room = ChatRoom::new_at(fresh.clone(), visitor.clone(), now);
                    self.chats.insert(fresh.clone(), room);
                    proof {
                        self.chats.lemma_wf();
                    }
                    self.refer(ui, fresh.clone());
                    self.next_room = Some(fresh.clone());
                    (Placement::Waiting, Some(fresh))
                }
            },
        }
    }

    /// Serves the request of `visitor` for a room at `now`, with `fresh` at
    /// hand as the identifier for a new room.
    ///
    /// A visitor the directory does not know, or one that already refers to a
    /// room, is turned away and nothing changes. Otherwise the visitor joins
    /// the room that waits in the slot; once that room has two participants it
    /// leaves the slot and the visitor is shown the backlog, which marks the
    /// peer's messages as seen. Without a waiting room a new one is opened
    /// under `fresh` and takes the slot; where `fresh` is already taken
    /// nothing changes.
    pub fn assign_room_with(&mut self, visitor: &str, now: TimeStamp, fresh: ChatId) -> (r:
        Assignment)
        requires
            old(self).wf(),
        ensures
            final(self).wf(),
            r.placement == old(self)@.placement(visitor@, fresh@),
            r.room.deep_view() == old(self)@.placed_in(visitor@, fresh@),
            r.messages.deep_view() == old(self)@.assigned_inbox(visitor@, now, fresh@),
            final(self)@ == old(self)@.assigned(visitor@, now, fresh@),
            old(self)@.slot_ok() ==> final(self)@.slot_ok(),
    {
        proof {
            old(self)@.lemma_assigned_wf(visitor@, now, fresh@);
            if old(self)@.slot_ok() {
                law_request_keeps_slot(old(self)@, visitor@, now, fresh@);
            }
        }
        let key = String::from_str(visitor);
        let (placement, room) = self.place(&key, now, fresh);
        let messages = match placement {
            Placement::Paired => match self.render_inbox(visitor, now) {
                Some(views) => views,
                None => Vec::new(),
            },
            _ => Vec::new(),
        };
        proof {
            if placement != Placement::Paired {
                assert(messages.deep_view() =~= Seq::empty());
            }
        }
        Assignment { placement, room, messages }
    }

    /// Takes `visitor` out of its room at `now`.
    ///
    /// The first of two to leave is taken out of the participants and
    /// recorded as the room's terminator, the ledger says so, and the room
    /// stays for the other participant to see. Whoever leaves nobody behind,
    /// the second of two or one who waited alone, takes the room out of the
    /// registry. The slot is cleared where it pointed at the room. A visitor
    /// who is in no room changes nothing, so leaving twice is leaving once.
    pub fn leave_room(&mut self, visitor: &str, now: TimeStamp)
        requires
            old(self).wf(),
        ensures
            final(self).wf(),
            final(self)@ == old(self)@.left(visitor@, now),
            old(self)@.slot_ok() ==> final(self)@.slot_ok(),
    {
        proof {
            self.users.lemma_wf();
            self.chats.lemma_wf();
            old(self)@.lemma_left_wf(visitor@, now);
            if old(self)@.slot_ok() {
                law_leave_keeps_slot(old(self)@, visitor@, now);
            }
        }
        let key = String::from_str(visitor);
        match self.locate(&key) {
            Some((ui, ri)) => {
                let user = self.users.value_at_mut(ui);
                user.room_id = None;
                let rid = self.chats.key_at(ri).clone();
                let room = self.chats.value_at(ri);
                if room.is_terminated() || room.peer_count(&key) == 0 {
                    self.chats.remove(&rid);
                } else {
                    let room = self.chats.value_at_mut(ri);
                    room.terminate_at(key, now);
                }
                if self.slot_is(&rid) {
                    self.next_room = None;
                }
                proof {
                    self.users.lemma_wf();
                    self.chats.lemma_wf();
                }
            },
            None => {},
        }
    }

    /// Appends `text` by `visitor` to the ledger of its room at `now`, keeping
    /// at most `capacity` messages, oldest evicted first. Says whether the
    /// message was accepted: a visitor who is in no room, or whose room
    /// somebody has left, writes nothing.
    pub fn post_message(&mut self, visitor: &str, text: String, now: TimeStamp, capacity: usize) -> (accepted:
        bool)
        requires
            old(self).wf(),
        ensures
            final(self).wf(),
            accepted == old(self)@.accepts_post(visitor@),
            final(self)@ == old(self)@.posted(visitor@, text@, now, capacity as nat),
    {
        proof {
            self.chats.lemma_wf();
        }
        let key = String::from_str(visitor);
        match self.locate(&key) {
            Some((_ui, ri)) => {
                if self.chats.value_at(ri).is_terminated() {
                    false
                } else {
                    let room = self.chats.value_at_mut(ri);
                    room.post(key, text, now, capacity);
                    proof {
                        self.chats.lemma_wf();
                        old(self)@.lemma_posted_wf(visitor@, text@, now, capacity as nat);
                    }
                    true
                }
            },
            None => false,
        }
    }

    /// The ledger of the room of `visitor` as the visitor sees it at `now`,
    /// newest first, or `None` where the visitor is in no room. Rendering is
    /// what delivers: afterwards every message in the room that somebody else
    /// wrote is seen, while the views show the receipts as they stood before.
    pub fn render_inbox(&mut self, visitor: &str, now: TimeStamp) -> (views: Option<
        Vec<MessageView>,
    >)
        requires
            old(self).wf(),
        ensures
            final(self).wf(),
            views.deep_view() == old(self)@.inbox(visitor@, now),
            final(self)@ == old(self)@.read(visitor@),
    {
        proof {
            self.chats.lemma_wf();
        }
        let key = String::from_str(visitor);
        match self.locate(&key) {
            Some((_ui, ri)) => {
                let room = self.chats.value_at_mut(ri);
                let views = room.render(&key, now);
                proof {
                    old(self)@.lemma_read_wf(visitor@);
                }
                Some(views)
            },
            None => None,
        }
    }

    /// Where the room of `visitor` stands in its life, or `None` where the
    /// visitor is in no room.
    pub fn room_phase(&self, visitor: &str) -> (phase: Option<RoomPhase>)
        requires
            self.wf(),
        ensures
            phase == self@.phase(visitor@),
    {
        let key = String::from_str(visitor);
        match self.locate(&key) {
            Some((_ui, ri)) => Some(self.chats.value_at(ri).phase()),
            None => None,
        }
    }

    /// Whether the matchmaking slot holds the identifier `room`.
    fn slot_is(&self, room: &ChatId) -> (held: bool)
        ensures
            held == (self.next_room.deep_view() == Some(room@)),
    {
        match &self.next_room {
            Some(r) => *r == *room,
            None => false,
        }
    }

    /// Deals with one visitor in the idle sweep at `now`.
    ///
    /// A visitor in an active room is stale once its silence exceeds the inside
    /// bound, every other visitor once it exceeds the outside bound; a visitor
    /// that is not stale is kept. A stale visitor without a room is removed. One
    /// whose peer has left is removed together with the room. One who waits
    /// alone is removed together with the room, and the slot, which should
    /// point at that room, is cleared. One in an active room leaves it as if by
    /// an explicit exit and is removed, while the room stays for the peer. A
    /// reference to a room the registry does not hold, and a room with a
    /// participant count other than one or two, are reported and left alone.
    pub fn reap(&mut self, visitor: &str, now: TimeStamp, config: &Config) -> (outcome: Reaped)
        requires
            old(self).wf(),
        ensures
            final(self).wf(),
            outcome == old(self)@.verdict(visitor@, now, *config),
            final(self)@ == old(self)@.reaped(visitor@, now, *config),
            old(self)@.slot_ok() ==> final(self)@.slot_ok(),
    {
        proof {
            self.users.lemma_wf();
            self.chats.lemma_wf();
            old(self)@.lemma_reaped_wf(visitor@, now, *config);
            if old(self)@.slot_ok() {
                lemma_reaped_keeps_slot(old(self)@, visitor@, now, *config);
            }
        }
        let key = String::from_str(visitor);
        let ui = match self.users.find(&key) {
            Some(ui) => ui,
            None => {
                return Reaped::Kept;
            },
        };
        let user = self.users.value_at(ui);
        let idle = elapsed(user.last_seen, now);
        let outside = config.stale_outside(idle);
        let inside = config.stale_inside(idle);
        let rid = match copy_id(&user.room_id) {
            Some(rid) => rid,
            None => {
                if outside {
                    self.users.remove(&key);
                    return Reaped::Visitor;
                } else {
                    return Reaped::Kept;
                }
            },
        };
        let ri = match self.chats.find(&rid) {
            Some(ri) => ri,
            None => {
                if outside {
                    return Reaped::MissingRoom;
                } else {
                    return Reaped::Kept;
                }
            },
        };
        let room = self.chats.value_at(ri);
        let count = room.user_count();
        match room.terminator() {
            Some(t) => {
                if outside && !(*t == key) {
                    self.chats.remove(&rid);
                    self.users.remove(&key);
                    Reaped::Teardown
                } else {
                    Reaped::Kept
                }
            },
            None => {
                if count == 2 {
                    if inside {
                        let room = self.chats.value_at_mut(ri);
                        room.terminate_at(key.clone(), now);
                        self.users.remove(&key);
                        Reaped::TimedOut
                    } else {
                        Reaped::Kept
                    }
                } else if !outside {
                    Reaped::Kept
                } else if count != 1 {
                    Reaped::BadRoom
                } else {
                    let pointed = self.slot_is(&rid);
                    self.chats.remove(&rid);
                    self.users.remove(&key);
                    if pointed {
                        self.next_room = None;
                        Reaped::WaitingRoom
                    } else {
                        Reaped::StraySlot
                    }
                }
            },
        }
    }

    /// The idle sweep at `now`: deals with every visitor of the directory, in
    /// the directory's order, each against the state the one before left, and
    /// reports every visitor it did not keep.
    pub fn cleanup(&mut self, now: TimeStamp, config: &Config) -> (report: Vec<SweepEvent>)
        requires
            old(self).wf(),
        ensures
            final(self).wf(),
            final(self)@ == old(self)@.swept(old(self)@.users.order, now, *config),
            report.deep_view() == old(self)@.sweep_log(old(self)@.users.order, now, *config),
            old(self)@.slot_ok() ==> final(self)@.slot_ok(),
    {
        proof {
            if old(self)@.slot_ok() {
                old(self).lemma_wf();
                law_sweep_keeps_slot(old(self)@, old(self)@.users.order, now, *config);
            }
        }
        let visitors = self.users.keys();
        let ghost all = visitors.deep_view();
        let mut report: Vec<SweepEvent> = Vec::new();
        let mut i: usize = 0;
        assert(all.skip(0) =~= all);
        assert(report.deep_view() =~= Seq::empty());
        while i < visitors.len()
            invariant
                i <= visitors.len(),
                all == visitors.deep_view(),
                self.wf(),
                self@.swept(all.skip(i as int), now, *config) == old(self)@.swept(
                    all,
                    now,
                    *config,
                ),
                report.deep_view() + self@.sweep_log(all.skip(i as int), now, *config) == old(
                    self,
                )@.sweep_log(all, now, *config),
            decreases visitors.len() - i,
        {
            let ghost before = self@;
            let ghost logged = report.deep_view();
            let ghost rest = all.skip(i as int);
            assert(rest[0] == all[i as int]);
            assert(rest.drop_first() =~= all.skip(i + 1));
            let outcome = self.reap(visitors[i].as_str(), now, config);
            match outcome {
                Reaped::Kept => {},
                _ => {
                    report.push(SweepEvent { visitor: visitors[i].clone(), outcome: outcome });
                    assert(report.deep_view() =~= logged.push((all[i as int], outcome)));
                    assert(logged.push((all[i as int], outcome)) + self@.sweep_log(
                        all.skip(i + 1),
                        now,
                        *config,
                    ) =~= logged + (seq![(all[i as int], outcome)] + self@.sweep_log(
                        all.skip(i + 1),
                        now,
                        *config,
                    )));
                },
            }
            i = i + 1;
        }
        assert(all.skip(i as int) =~= Seq::empty());
        assert(report.deep_view() + Seq::empty() =~= report.deep_view());
        report
    }

    /// Serves `visitor` on entering at `now`, with `fresh` at hand for a new
    /// room: a visitor without a room is placed by the matchmaker, and whoever
    /// is in a room afterwards renders it and is told where it stands. `None`
    /// says that the visitor is in no room: the directory does not know it, its
    /// room is gone, or `fresh` was needed and is taken.
    pub fn join_or_status_with(&mut self, visitor: &str, now: TimeStamp, fresh: ChatId) -> (status:
        Option<RoomStatus>)
        requires
            old(self).wf(),
        ensures
            final(self).wf(),
            status.deep_view() == old(self)@.placed(visitor@, now, fresh@).status(visitor@, now),
            final(self)@ == old(self)@.entered(visitor@, now, fresh@),
    {
        proof {
            old(self)@.lemma_placed_wf(visitor@, now, fresh@);
            old(self)@.placed(visitor@, now, fresh@).lemma_read_wf(visitor@);
        }
        let key = String::from_str(visitor);
        let _ = self.place(&key, now, fresh);
        proof {
            self.chats.lemma_wf();
        }
        match self.locate(&key) {
            Some((_ui, ri)) => {
                let state = self.chats.value_at(ri).phase();
                let peer_count = self.chats.value_at(ri).peer_count(&key);
                let room = self.chats.value_at_mut(ri);
                let messages = room.render(&key, now);
                Some(RoomStatus { state, messages, peer_count })
            },
            None => None,
        }
    }

    /// Records the contact of `visitor` at `now` and renders its room: the
    /// ledger as the visitor sees it, newest first, or `None` where the
    /// visitor is in no room.
    pub fn fetch_messages(&mut self, visitor: &str, now: TimeStamp) -> (views: Option<
        Vec<MessageView>,
    >)
        requires
            old(self).wf(),
        ensures
            final(self).wf(),
            views.deep_view() == old(self)@.touched(visitor@, now).inbox(visitor@, now),
            final(self)@ == old(self)@.fetched(visitor@, now),
    {
        self.touch(visitor, now);
        self.render_inbox(visitor, now)
    }

    /// Serves a submitted form at `now`: where `body` carries exactly one
    /// field and that field is named `message`, the contact of `visitor` is
    /// recorded and the field's value is posted; any other form is dropped
    /// and changes nothing. Says whether a message was written.
    pub fn send_message(&mut self, visitor: &str, body: &str, now: TimeStamp, capacity: usize) -> (accepted:
        bool)
        requires
            old(self).wf(),
        ensures
            final(self).wf(),
            accepted == (crate::form::message_field(form_fields(body@)) is Some && old(
                self,
            )@.accepts_post(visitor@)),
            final(self)@ == old(self)@.submitted(
                visitor@,
                form_fields(body@),
                now,
                capacity as nat,
            ),
    {
        match parse_message(body) {
            Some(text) => {
                self.touch(visitor, now);
                self.post_message(visitor, text, now, capacity)
            },
            None => false,
        }
    }

    /// A snapshot for inspection: for every visitor the room it refers to,
    /// then for every room its participants.
    pub fn dump(&self) -> (text: String)
        requires
            self.wf(),
        ensures
            text@ == self@.dump_text(),
    {
        let mut out = String::new();
        proof {
            reveal_strlit("\n");
            reveal_strlit(": ");
            reveal_strlit("none");
            reveal_strlit(" -> ");
        }
        let mut i: usize = 0;
        while i < self.users.len()
            invariant
                self.wf(),
                i <= self.users@.len(),
                out@ == self@.user_lines(i as nat),
                "\n"@ == seq!['\n'],
                ": "@ == seq![':', ' '],
                "none"@ == seq!['n', 'o', 'n', 'e'],
            decreases self.users@.len() - i,
        {
            let ghost head = out@;
            out.append("\n");
            out.append(self.users.key_at(i).as_str());
            out.append(": ");
            match &self.users.value_at(i).room_id {
                Some(r) => out.append(r.as_str()),
                None => out.append("none"),
            }
            proof {
                let id = self@.users.order[i as int];
                assert(out@ =~= head + user_line(id, self@.users.get(id)));
            }
            i = i + 1;
        }
        let ghost first = out@;
        let mut j: usize = 0;
        while j < self.chats.len()
            invariant
                self.wf(),
                j <= self.chats@.len(),
                first == self@.user_lines(self@.users.len()),
                out@ == first + self@.room_lines(j as nat),
                "\n"@ == seq!['\n'],
                " -> "@ == seq![' ', '-', '>', ' '],
            decreases self.chats@.len() - j,
        {
            let ghost head = out@;
            out.append("\n");
            out.append(self.chats.key_at(j).as_str());
            out.append(" -> ");
            let listed = self.chats.value_at(j).users_text();
            out.append(listed.as_str());
            proof {
                let id = self@.chats.order[j as int];
                assert(out@ =~= head + room_line(id, self@.chats.get(id)));
                assert(head + room_line(id, self@.chats.get(id)) =~= first + (self@.room_lines(
                    j as nat,
                ) + room_line(id, self@.chats.get(id))));
            }
            j = j + 1;
        }
        out
    }

    /// Serves a contact that presents `cookie` at `now`. A known cookie
    /// refreshes its visitor and is answered with that visitor. Anything else
    /// enters a new visitor under a random identifier that the directory does
    /// not hold, and is answered with it, marked as new. `None` says that no
    /// such identifier could be drawn; nothing changed then.
    pub fn get_or_create(&mut self, cookie: Option<&str>, now: TimeStamp) -> (r: Option<
        (UserId, bool),
    >)
        requires
            old(self).wf(),
        ensures
            final(self).wf(),
            old(self)@.knows(cookie.deep_view()) ==> {
                &&& r.deep_view() == Some((cookie.deep_view()->0, false))
                &&& final(self)@ == old(self)@.touched(cookie.deep_view()->0, now)
            },
            !old(self)@.knows(cookie.deep_view()) ==> match r {
                Some((id, is_new)) => {
                    &&& is_new
                    &&& is_id(id@)
                    &&& !old(self)@.users.contains(id@)
                    &&& final(self)@ == old(self)@.identified(cookie.deep_view(), now, id@)
                },
                None => final(self)@ == old(self)@ && holds_id(old(self)@.users),
            },
    {
        match cookie {
            Some(c) => {
                if self.touch(c, now) {
                    return Some((String::from_str(c), false));
                }
            },
            None => {},
        }
        match gen_rand_id_safe(&self.users) {
            Some(fresh) => self.get_or_create_with(None, now, fresh),
            None => None,
        }
    }

    /// Serves a contact that presents `cookie` at `now`, as
    /// [`AppState::get_or_create`] does, and answers with the visitor's
    /// identifier and, for a new visitor only, the value to hand out as its
    /// cookie.
    pub fn identify(&mut self, cookie: Option<&str>, now: TimeStamp) -> (r: Option<
        (UserId, Option<UserId>),
    >)
        requires
            old(self).wf(),
        ensures
            final(self).wf(),
            old(self)@.knows(cookie.deep_view()) ==> {
                &&& r.deep_view() == Some((cookie.deep_view()->0, None::<Seq<char>>))
                &&& final(self)@ == old(self)@.touched(cookie.deep_view()->0, now)
            },
            !old(self)@.knows(cookie.deep_view()) ==> match r {
                Some((id, issued)) => {
                    &&& issued.deep_view() == Some(id@)
                    &&& is_id(id@)
                    &&& !old(self)@.users.contains(id@)
                    &&& final(self)@ == old(self)@.identified(cookie.deep_view(), now, id@)
                },
                None => final(self)@ == old(self)@ && holds_id(old(self)@.users),
            },
    {
        match self.get_or_create(cookie, now) {
            Some((id, is_new)) => {
                if is_new {
                    let issued = id.clone();
                    Some((id, Some(issued)))
                } else {
                    Some((id, None))
                }
            },
            None => None,
        }
    }

    /// Whether serving `visitor` takes a new room.
    pub fn needs_room(&self, visitor: &str) -> (needed: bool)
        requires
            self.wf(),
        ensures
            needed == self@.needs_room(visitor@),
    {
        let key = String::from_str(visitor);
        match self.users.get(&key) {
            Some(user) => user.room_id.is_none() && self.waiting_place().is_none(),
            None => false,
        }
    }

    /// Serves the request of `visitor` for a room at `now`, as
    /// [`AppState::assign_room_with`] does. Where a new room is needed it is
    /// opened under a random identifier that the registry does not hold; where
    /// none could be drawn the request ends as a collision and nothing changes.
    /// Where no new room is needed no identifier is drawn, and the outcome is
    /// that of `assign_room_with` with any identifier.
    pub fn assign_room(&mut self, visitor: &str, now: TimeStamp) -> (r: Assignment)
        requires
            old(self).wf(),
        ensures
            final(self).wf(),
            !old(self)@.needs_room(visitor@) ==> {
                &&& r.placement == old(self)@.placement(visitor@, Seq::empty())
                &&& r.room.deep_view() == old(self)@.placed_in(visitor@, Seq::empty())
                &&& r.messages.deep_view() == old(self)@.assigned_inbox(
                    visitor@,
                    now,
                    Seq::empty(),
                )
                &&& final(self)@ == old(self)@.assigned(visitor@, now, Seq::empty())
            },
            old(self)@.needs_room(visitor@) ==> match r.room {
                Some(fresh) => {
                    &&& is_id(fresh@)
                    &&& !old(self)@.chats.contains(fresh@)
                    &&& r.placement == Placement::Waiting
                    &&& r.messages.deep_view() == Seq::<MessageViewModel>::empty()
                    &&& final(self)@ == old(self)@.assigned(visitor@, now, fresh@)
                },
                None => {
                    &&& r.placement == Placement::Collision
                    &&& r.messages.deep_view() == Seq::<MessageViewModel>::empty()
                    &&& final(self)@ == old(self)@
                    &&& holds_id(old(self)@.chats)
                },
            },
    {
        if self.needs_room(visitor) {
            match gen_rand_id_safe(&self.chats) {
                Some(fresh) => self.assign_room_with(visitor, now, fresh),
                None => {
                    let messages: Vec<MessageView> = Vec::new();
                    assert(messages.deep_view() =~= Seq::empty());
                    Assignment { placement: Placement::Collision, room: None, messages }
                },
            }
        } else {
            let unused = String::new();
            assert(unused@ =~= Seq::empty());
            self.assign_room_with(visitor, now, unused)
        }
    }

    /// Serves `visitor` on entering at `now`, as
    /// [`AppState::join_or_status_with`] does, drawing the identifier of a new
    /// room where one is needed. Where none could be drawn the answer is
    /// `None` and nothing changes.
    pub fn join_or_status(&mut self, visitor: &str, now: TimeStamp) -> (status: Option<
        RoomStatus,
    >)
        requires
            old(self).wf(),
        ensures
            final(self).wf(),
            !old(self)@.needs_room(visitor@) ==> {
                &&& status.deep_view() == old(self)@.placed(visitor@, now, Seq::empty()).status(
                    visitor@,
                    now,
                )
                &&& final(self)@ == old(self)@.entered(visitor@, now, Seq::empty())
            },
            old(self)@.needs_room(visitor@) ==> {
                ||| status is None && final(self)@ == old(self)@ && holds_id(old(self)@.chats)
                ||| exists|fresh: Seq<char>|
                    {
                        &&& #[trigger] is_id(fresh)
                        &&& !old(self)@.chats.contains(fresh)
                        &&& status.deep_view() == old(self)@.placed(visitor@, now, fresh).status(
                            visitor@,
                            now,
                        )
                        &&& final(self)@ == old(self)@.entered(visitor@, now, fresh)
                    }
            },
    {
        if self.needs_room(visitor) {
            match gen_rand_id_safe(&self.chats) {
                Some(fresh) => {
                    let ghost id = fresh@;
                    let status = self.join_or_status_with(visitor, now, fresh);
                    assert(is_id(id) && !old(self)@.chats.contains(id) && status.deep_view() == old(
                        self,
                    )@.placed(visitor@, now, id).status(visitor@, now) && self@ == old(
                        self,
                    )@.entered(visitor@, now, id));
                    status
                },
                None => None,
            }
        } else {
            let unused = String::new();
            assert(unused@ =~= Seq::empty());
            self.join_or_status_with(visitor, now, unused)
        }
    }
}

} // verus!

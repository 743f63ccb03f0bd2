//! The state of the whole service as a mathematical value, and every transition
//! of it as a function on that value.
use crate::clock::age;
use crate::clock::TimeStamp;
use crate::config::Config;
use crate::directory::DirectoryModel;
use crate::form::message_field;
use crate::message::MessageViewModel;
use crate::room::RoomModel;
use crate::room::RoomPhase;
use crate::user::UserModel;
use vstd::prelude::*;

verus! {

/// How a request for a room ended.
#[derive(Clone, Copy, Debug, PartialEq, Eq, Structural)]
pub enum Placement {
    /// The directory does not know the visitor; nothing changed.
    Unknown,
    /// The visitor already refers to a room; nothing changed.
    Occupied,
    /// A new room was needed and the identifier offered for it is taken;
    /// nothing changed.
    Collision,
    /// The visitor is in a room that waits for a peer.
    Waiting,
    /// The visitor completed a pair; the room left the matchmaking slot.
    Paired,
}

/// What the idle sweep did about one visitor.
#[derive(Clone, Copy, Debug, PartialEq, Eq, Structural)]
pub enum Reaped {
    /// Nothing: the visitor is not stale. A visitor recorded as the one who
    /// left the room it refers to is kept as well, whatever its silence; no
    /// reachable state holds such a visitor.
    Kept,
    /// The visitor had no room and was removed.
    Visitor,
    /// The peer had left already: the room and the visitor were removed.
    Teardown,
    /// The visitor waited alone: the room and the visitor were removed and the
    /// matchmaking slot was cleared.
    WaitingRoom,
    /// As `WaitingRoom`, but the matchmaking slot did not point at the room,
    /// which it should have: a consistency fault. The slot was left as it was.
    StraySlot,
    /// The visitor fell silent in an active room: it left the room as if by an
    /// explicit exit, and was removed.
    TimedOut,
    /// The visitor refers to a room that the registry does not hold: a
    /// consistency fault. Nothing changed.
    MissingRoom,
    /// The visitor's room has neither one nor two participants: a consistency
    /// fault. Nothing changed.
    BadRoom,
}

/// What a visitor is told of its room.
pub struct StatusModel {
    /// Where the room stands in its life.
    pub state: RoomPhase,
    /// The ledger as the visitor sees it, newest first.
    pub messages: Seq<MessageViewModel>,
    /// How many other participants the room has.
    pub peer_count: nat,
}

/// The line of a dump that shows which room a visitor refers to.
pub open spec fn user_line(id: Seq<char>, user: UserModel) -> Seq<char> {
    seq!['\n'] + id + seq![':', ' '] + match user.room_id {
        Some(r) => r,
        None => seq!['n', 'o', 'n', 'e'],
    }
}

/// The line of a dump that shows who is in a room.
pub open spec fn room_line(id: Seq<char>, room: RoomModel) -> Seq<char> {
    seq!['\n'] + id + seq![' ', '-', '>', ' '] + room.users_text()
}

/// The mathematical content of the service's state.
pub struct StateModel {
    /// The session directory.
    pub users: DirectoryModel<UserModel>,
    /// The room registry.
    pub chats: DirectoryModel<RoomModel>,
    /// The matchmaking slot: the room that waits for a second participant.
    pub next_room: Option<Seq<char>>,
}

impl StateModel {
    /// Both collections are well formed, and so is every room.
    pub open spec fn wf(self) -> bool {
        &&& self.users.wf()
        &&& self.chats.wf()
        &&& forall|r: Seq<char>| self.chats.contains(r) ==> (#[trigger] self.chats.get(r)).wf()
    }

    /// The state with no visitor, no room and an empty slot.
    pub open spec fn empty() -> StateModel {
        StateModel {
            users: DirectoryModel::empty(),
            chats: DirectoryModel::empty(),
            next_room: None,
        }
    }

    /// The invariant of the matchmaking slot: the room it points at is in the
    /// registry, has exactly one participant, and nobody has left it.
    pub open spec fn slot_ok(self) -> bool {
        match self.next_room {
            Some(r) => {
                &&& self.chats.contains(r)
                &&& self.chats.get(r).users.len() == 1
                &&& self.chats.get(r).terminator is None
            },
            None => true,
        }
    }

    /// The room that waits in the slot, if the slot points at a room of the registry.
    pub open spec fn waiting(self) -> Option<Seq<char>> {
        match self.next_room {
            Some(r) => if self.chats.contains(r) {
                Some(r)
            } else {
                None
            },
            None => None,
        }
    }

    /// The room `visitor` refers to, as far as the directory knows the visitor.
    pub open spec fn room_ref(self, visitor: Seq<char>) -> Option<Seq<char>> {
        if self.users.contains(visitor) {
            self.users.get(visitor).room_id
        } else {
            None
        }
    }

    /// The room `visitor` is in: the one it refers to, where the registry holds it.
    pub open spec fn room_of(self, visitor: Seq<char>) -> Option<Seq<char>> {
        match self.room_ref(visitor) {
            Some(r) => if self.chats.contains(r) {
                Some(r)
            } else {
                None
            },
            None => None,
        }
    }

    // ----- session directory -----
    /// The state after a contact of `visitor` at `now`; an unknown visitor
    /// changes nothing.
    pub open spec fn touched(self, visitor: Seq<char>, now: TimeStamp) -> StateModel {
        if self.users.contains(visitor) {
            StateModel {
                users: self.users.put(visitor, self.users.get(visitor).touched(now)),
                ..self
            }
        } else {
            self
        }
    }

    /// Whether `cookie` names a visitor of the directory.
    pub open spec fn knows(self, cookie: Option<Seq<char>>) -> bool {
        cookie is Some && self.users.contains(cookie->0)
    }

    /// Whom a contact that presents `cookie` is taken for, and whether that
    /// identity is new: a known cookie names its visitor, anything else gets
    /// `fresh`. There is no answer where `fresh` is needed and already taken.
    pub open spec fn identity(self, cookie: Option<Seq<char>>, fresh: Seq<char>) -> Option<
        (Seq<char>, bool),
    > {
        if self.knows(cookie) {
            Some((cookie->0, false))
        } else if self.users.contains(fresh) {
            None
        } else {
            Some((fresh, true))
        }
    }

    /// The state after a contact that presents `cookie` at `now`: a known
    /// visitor is refreshed, an unknown one is entered under `fresh`.
    pub open spec fn identified(
        self,
        cookie: Option<Seq<char>>,
        now: TimeStamp,
        fresh: Seq<char>,
    ) -> StateModel {
        match self.identity(cookie, fresh) {
            Some((id, is_new)) => if is_new {
                StateModel { users: self.users.put(id, UserModel::fresh(id, now)), ..self }
            } else {
                self.touched(id, now)
            },
            None => self,
        }
    }

    /// The state without `visitor` in the directory.
    pub open spec fn removed(self, visitor: Seq<char>) -> StateModel {
        StateModel { users: self.users.without(visitor), ..self }
    }

    // ----- matchmaking -----
    /// How a request of `visitor` for a room ends when `fresh` is offered as
    /// the identifier of a new room.
    pub open spec fn placement(self, visitor: Seq<char>, fresh: Seq<char>) -> Placement {
        if !self.users.contains(visitor) {
            Placement::Unknown
        } else if self.users.get(visitor).room_id is Some {
            Placement::Occupied
        } else {
            match self.waiting() {
                Some(r) => if self.chats.get(r).joined(visitor).users.len() >= 2 {
                    Placement::Paired
                } else {
                    Placement::Waiting
                },
                None => if self.chats.contains(fresh) {
                    Placement::Collision
                } else {
                    Placement::Waiting
                },
            }
        }
    }

    /// The room a request of `visitor` places it in, if it places it.
    pub open spec fn placed_in(self, visitor: Seq<char>, fresh: Seq<char>) -> Option<Seq<char>> {
        match self.placement(visitor, fresh) {
            Placement::Waiting | Placement::Paired => match self.waiting() {
                Some(r) => Some(r),
                None => Some(fresh),
            },
            _ => None,
        }
    }

    /// The state after the matchmaker has served `visitor` at `now`: the
    /// visitor joins the waiting room, which leaves the slot once it has two
    /// participants; without a waiting room a new one is opened under `fresh`
    /// and takes the slot.
    pub open spec fn placed(self, visitor: Seq<char>, now: TimeStamp, fresh: Seq<char>) -> StateModel {
        match self.placement(visitor, fresh) {
            Placement::Waiting | Placement::Paired => match self.waiting() {
                Some(r) => {
                    let room = self.chats.get(r).joined(visitor);
                    StateModel {
                        users: self.users.put(visitor, self.users.get(visitor).placed(r)),
                        chats: self.chats.put(r, room),
                        next_room: if room.users.len() >= 2 {
                            None
                        } else {
                            self.next_room
                        },
                    }
                },
                None => StateModel {
                    users: self.users.put(visitor, self.users.get(visitor).placed(fresh)),
                    chats: self.chats.put(fresh, RoomModel::fresh(fresh, visitor, now)),
                    next_room: Some(fresh),
                },
            },
            _ => self,
        }
    }

    /// The state after `visitor` asked for a room at `now`: the matchmaker
    /// serves it, and a visitor who completes a pair renders the backlog.
    pub open spec fn assigned(self, visitor: Seq<char>, now: TimeStamp, fresh: Seq<char>) -> StateModel {
        if self.placement(visitor, fresh) == Placement::Paired {
            self.placed(visitor, now, fresh).read(visitor)
        } else {
            self.placed(visitor, now, fresh)
        }
    }

    /// What `visitor` is shown on asking for a room at `now`: the backlog where
    /// it completes a pair, nothing otherwise.
    pub open spec fn assigned_inbox(
        self,
        visitor: Seq<char>,
        now: TimeStamp,
        fresh: Seq<char>,
    ) -> Seq<MessageViewModel> {
        if self.placement(visitor, fresh) == Placement::Paired {
            self.placed(visitor, now, fresh).inbox(visitor, now)->0
        } else {
            Seq::empty()
        }
    }

    /// Whether the room of `visitor` goes when the visitor leaves it: somebody
    /// has left it before, or nobody else is in it.
    pub open spec fn leaves_last(self, visitor: Seq<char>) -> bool {
        match self.room_of(visitor) {
            Some(r) => self.chats.get(r).terminator is Some || self.chats.get(r).peers_of(
                visitor,
            ) == 0,
            None => false,
        }
    }

    /// The state after `visitor` left its room at `now`. The first of two to
    /// leave is taken out of the participants and recorded as the room's
    /// terminator, and the room stays. Whoever leaves nobody behind, the
    /// second of two or one who waited alone, takes the room with it. The
    /// slot never keeps a room that somebody has left. A visitor without a
    /// room changes nothing.
    pub open spec fn left(self, visitor: Seq<char>, now: TimeStamp) -> StateModel {
        match self.room_of(visitor) {
            Some(r) => StateModel {
                users: self.users.put(visitor, self.users.get(visitor).released()),
                chats: if self.leaves_last(visitor) {
                    self.chats.without(r)
                } else {
                    self.chats.put(r, self.chats.get(r).terminated(visitor, now))
                },
                next_room: if self.next_room == Some(r) {
                    None
                } else {
                    self.next_room
                },
            },
            None => self,
        }
    }

    // ----- ledger -----
    /// Whether a message of `visitor` is accepted: the visitor is in a room
    /// that nobody has left.
    pub open spec fn accepts_post(self, visitor: Seq<char>) -> bool {
        match self.room_of(visitor) {
            Some(r) => self.chats.get(r).terminator is None,
            None => false,
        }
    }

    /// The state after `visitor` tried to post `text` at `now` with ledgers
    /// limited to `capacity` messages. A message that is not accepted changes
    /// nothing.
    pub open spec fn posted(
        self,
        visitor: Seq<char>,
        text: Seq<char>,
        now: TimeStamp,
        capacity: nat,
    ) -> StateModel {
        if self.accepts_post(visitor) {
            let r = self.room_of(visitor)->0;
            StateModel {
                chats: self.chats.put(r, self.chats.get(r).posted(visitor, text, now, capacity)),
                ..self
            }
        } else {
            self
        }
    }

    /// The ledger of the room of `visitor` as the visitor sees it at `now`,
    /// newest first; `None` where the visitor is in no room.
    pub open spec fn inbox(self, visitor: Seq<char>, now: TimeStamp) -> Option<
        Seq<MessageViewModel>,
    > {
        match self.room_of(visitor) {
            Some(r) => Some(self.chats.get(r).inbox(visitor, now)),
            None => None,
        }
    }

    /// The state after `visitor` rendered the ledger of its room: every message
    /// written by somebody else is seen.
    pub open spec fn read(self, visitor: Seq<char>) -> StateModel {
        match self.room_of(visitor) {
            Some(r) => StateModel {
                chats: self.chats.put(r, self.chats.get(r).read_by(visitor)),
                ..self
            },
            None => self,
        }
    }

    /// Where the room of `visitor` stands; `None` where the visitor is in no room.
    pub open spec fn phase(self, visitor: Seq<char>) -> Option<RoomPhase> {
        match self.room_of(visitor) {
            Some(r) => Some(self.chats.get(r).phase()),
            None => None,
        }
    }

    /// What `visitor` is told of its room at `now`; `None` where the visitor
    /// is in no room.
    pub open spec fn status(self, visitor: Seq<char>, now: TimeStamp) -> Option<StatusModel> {
        match self.room_of(visitor) {
            Some(r) => Some(
                StatusModel {
                    state: self.chats.get(r).phase(),
                    messages: self.chats.get(r).inbox(visitor, now),
                    peer_count: self.chats.get(r).peers_of(visitor),
                },
            ),
            None => None,
        }
    }

    /// Whether serving `visitor` takes a new room: the directory knows the
    /// visitor, it refers to no room, and no room waits in the slot.
    pub open spec fn needs_room(self, visitor: Seq<char>) -> bool {
        &&& self.users.contains(visitor)
        &&& self.users.get(visitor).room_id is None
        &&& self.waiting() is None
    }

    /// The state after `visitor` entered at `now`: a visitor without a room is
    /// served by the matchmaker, and whoever is in a room then renders it.
    pub open spec fn entered(self, visitor: Seq<char>, now: TimeStamp, fresh: Seq<char>) -> StateModel {
        self.placed(visitor, now, fresh).read(visitor)
    }

    /// The state after `visitor` fetched its messages at `now`: the contact is
    /// recorded and the room rendered.
    pub open spec fn fetched(self, visitor: Seq<char>, now: TimeStamp) -> StateModel {
        self.touched(visitor, now).read(visitor)
    }

    /// The state after `visitor` submitted a form with the parsed `fields` at
    /// `now`: a form that carries a message records the contact and posts the
    /// message, any other form changes nothing.
    pub open spec fn submitted(
        self,
        visitor: Seq<char>,
        fields: Seq<(Seq<char>, Seq<char>)>,
        now: TimeStamp,
        capacity: nat,
    ) -> StateModel {
        match message_field(fields) {
            Some(text) => self.touched(visitor, now).posted(visitor, text, now, capacity),
            None => self,
        }
    }

    /// The lines of a dump for the first `n` visitors of the directory.
    pub open spec fn user_lines(self, n: nat) -> Seq<char>
        decreases n,
    {
        if n == 0 {
            Seq::empty()
        } else {
            let id = self.users.order[n - 1];
            self.user_lines((n - 1) as nat) + user_line(id, self.users.get(id))
        }
    }

    /// The lines of a dump for the first `n` rooms of the registry.
    pub open spec fn room_lines(self, n: nat) -> Seq<char>
        decreases n,
    {
        if n == 0 {
            Seq::empty()
        } else {
            let id = self.chats.order[n - 1];
            self.room_lines((n - 1) as nat) + room_line(id, self.chats.get(id))
        }
    }

    /// The dump of the state: one line per visitor with the room it refers to,
    /// then one line per room with its participants, every line led by a line
    /// feed.
    pub open spec fn dump_text(self) -> Seq<char> {
        self.user_lines(self.users.len()) + self.room_lines(self.chats.len())
    }

    // ----- idle sweep -----
    /// What the sweep at `now` decides about `visitor`. A visitor in an active
    /// room is measured against the inside bound, every other visitor against
    /// the outside bound.
    pub open spec fn verdict(self, visitor: Seq<char>, now: TimeStamp, config: Config) -> Reaped {
        if !self.users.contains(visitor) {
            Reaped::Kept
        } else {
            let user = self.users.get(visitor);
            let idle = age(now, user.last_seen);
            let outside = idle > config.outside_ms();
            let inside = idle > config.inside_ms();
            match user.room_id {
                None => if outside {
                    Reaped::Visitor
                } else {
                    Reaped::Kept
                },
                Some(r) => if !self.chats.contains(r) {
                    if outside {
                        Reaped::MissingRoom
                    } else {
                        Reaped::Kept
                    }
                } else {
                    let room = self.chats.get(r);
                    match room.terminator {
                        Some(t) => if outside && t != visitor {
                            Reaped::Teardown
                        } else {
                            Reaped::Kept
                        },
                        None => if room.users.len() == 2 {
                            if inside {
                                Reaped::TimedOut
                            } else {
                                Reaped::Kept
                            }
                        } else if !outside {
                            Reaped::Kept
                        } else if room.users.len() != 1 {
                            Reaped::BadRoom
                        } else if self.next_room == Some(r) {
                            Reaped::WaitingRoom
                        } else {
                            Reaped::StraySlot
                        },
                    }
                },
            }
        }
    }

    /// The state after the sweep at `now` has dealt with `visitor`.
    pub open spec fn reaped(self, visitor: Seq<char>, now: TimeStamp, config: Config) -> StateModel {
        let r = self.room_ref(visitor)->0;
        match self.verdict(visitor, now, config) {
            Reaped::Kept | Reaped::MissingRoom | Reaped::BadRoom => self,
            Reaped::Visitor => StateModel { users: self.users.without(visitor), ..self },
            Reaped::Teardown | Reaped::StraySlot => StateModel {
                users: self.users.without(visitor),
                chats: self.chats.without(r),
                ..self
            },
            Reaped::WaitingRoom => StateModel {
                users: self.users.without(visitor),
                chats: self.chats.without(r),
                next_room: None,
            },
            Reaped::TimedOut => StateModel {
                users: self.users.without(visitor),
                chats: self.chats.put(r, self.chats.get(r).terminated(visitor, now)),
                ..self
            },
        }
    }

    /// The state after the sweep at `now` has dealt with `visitors`, one after
    /// the other, each against the state the one before left.
    pub open spec fn swept(self, visitors: Seq<Seq<char>>, now: TimeStamp, config: Config) -> StateModel
        decreases visitors.len(),
    {
        if visitors.len() == 0 {
            self
        } else {
            self.reaped(visitors[0], now, config).swept(visitors.drop_first(), now, config)
        }
    }

    /// What the sweep at `now` reports of `visitors`: every visitor it did not
    /// keep, with what it did about it, in the order of the sweep.
    pub open spec fn sweep_log(self, visitors: Seq<Seq<char>>, now: TimeStamp, config: Config) -> Seq<
        (Seq<char>, Reaped),
    >
        decreases visitors.len(),
    {
        if visitors.len() == 0 {
            Seq::empty()
        } else {
            let rest = self.reaped(visitors[0], now, config).sweep_log(
                visitors.drop_first(),
                now,
                config,
            );
            let verdict = self.verdict(visitors[0], now, config);
            if verdict == Reaped::Kept {
                rest
            } else {
                seq![(visitors[0], verdict)] + rest
            }
        }
    }

    // ----- every transition keeps the state well formed -----
    /// Putting a well-formed room into the registry keeps the state well formed.
    pub proof fn lemma_put_room_wf(self, key: Seq<char>, room: RoomModel)
        requires
            self.wf(),
            room.wf(),
        ensures
            (StateModel { chats: self.chats.put(key, room), ..self }).wf(),
    {
        let after = StateModel { chats: self.chats.put(key, room), ..self };
        self.chats.lemma_put_wf(key, room);
        assert forall|r: Seq<char>| after.chats.contains(r) implies (#[trigger] after.chats.get(
            r,
        )).wf() by {
            if r != key {
                assert(self.chats.contains(r));
                assert(self.chats.get(r).wf());
            }
        }
    }

    /// Taking a room out of the registry keeps the state well formed.
    pub proof fn lemma_without_room_wf(self, key: Seq<char>)
        requires
            self.wf(),
        ensures
            (StateModel { chats: self.chats.without(key), ..self }).wf(),
    {
        let after = StateModel { chats: self.chats.without(key), ..self };
        self.chats.lemma_without_wf(key);
        assert forall|r: Seq<char>| after.chats.contains(r) implies (#[trigger] after.chats.get(
            r,
        )).wf() by {
            assert(self.chats.contains(r));
            assert(self.chats.get(r).wf());
        }
    }

    /// Changing the directory alone keeps the state well formed as long as the
    /// directory stays so.
    pub proof fn lemma_users_wf(self, users: DirectoryModel<UserModel>)
        requires
            self.wf(),
            users.wf(),
        ensures
            (StateModel { users: users, ..self }).wf(),
    {
        let after = StateModel { users: users, ..self };
        assert forall|r: Seq<char>| after.chats.contains(r) implies (#[trigger] after.chats.get(
            r,
        )).wf() by {
            assert(self.chats.get(r).wf());
        }
    }

    /// Changing the slot alone keeps the state well formed.
    pub proof fn lemma_slot_wf(self, slot: Option<Seq<char>>)
        requires
            self.wf(),
        ensures
            (StateModel { next_room: slot, ..self }).wf(),
    {
        let after = StateModel { next_room: slot, ..self };
        assert forall|r: Seq<char>| after.chats.contains(r) implies (#[trigger] after.chats.get(
            r,
        )).wf() by {
            assert(self.chats.get(r).wf());
        }
    }

    /// A contact keeps the state well formed.
    pub proof fn lemma_touched_wf(self, visitor: Seq<char>, now: TimeStamp)
        requires
            self.wf(),
        ensures
            self.touched(visitor, now).wf(),
    {
        if self.users.contains(visitor) {
            let users = self.users.put(visitor, self.users.get(visitor).touched(now));
            self.users.lemma_put_wf(visitor, self.users.get(visitor).touched(now));
            self.lemma_users_wf(users);
        }
    }

    /// Identifying a contact keeps the state well formed.
    pub proof fn lemma_identified_wf(self, cookie: Option<Seq<char>>, now: TimeStamp, fresh: Seq<char>)
        requires
            self.wf(),
        ensures
            self.identified(cookie, now, fresh).wf(),
    {
        match self.identity(cookie, fresh) {
            Some((id, is_new)) => {
                if is_new {
                    self.users.lemma_put_wf(id, UserModel::fresh(id, now));
                    self.lemma_users_wf(self.users.put(id, UserModel::fresh(id, now)));
                } else {
                    self.lemma_touched_wf(id, now);
                }
            },
            None => {},
        }
    }

    /// Removing a visitor keeps the state well formed.
    pub proof fn lemma_removed_wf(self, visitor: Seq<char>)
        requires
            self.wf(),
        ensures
            self.removed(visitor).wf(),
    {
        self.users.lemma_without_wf(visitor);
        self.lemma_users_wf(self.users.without(visitor));
    }

    /// The matchmaker keeps the state well formed.
    pub proof fn lemma_placed_wf(self, visitor: Seq<char>, now: TimeStamp, fresh: Seq<char>)
        requires
            self.wf(),
        ensures
            self.placed(visitor, now, fresh).wf(),
    {
        match self.placement(visitor, fresh) {
            Placement::Waiting | Placement::Paired => {
                let user = self.users.get(visitor);
                match self.waiting() {
                    Some(r) => {
                        let room = self.chats.get(r).joined(visitor);
                        self.chats.get(r).lemma_joined_wf(visitor);
                        self.lemma_put_room_wf(r, room);
                        let s1 = StateModel { chats: self.chats.put(r, room), ..self };
                        self.users.lemma_put_wf(visitor, user.placed(r));
                        s1.lemma_users_wf(self.users.put(visitor, user.placed(r)));
                        let s2 = StateModel {
                            users: self.users.put(visitor, user.placed(r)),
                            ..s1
                        };
                        s2.lemma_slot_wf(None);
                    },
                    None => {
                        let room = RoomModel::fresh(fresh, visitor, now);
                        self.lemma_put_room_wf(fresh, room);
                        let s1 = StateModel { chats: self.chats.put(fresh, room), ..self };
                        self.users.lemma_put_wf(visitor, user.placed(fresh));
                        s1.lemma_users_wf(self.users.put(visitor, user.placed(fresh)));
                        let s2 = StateModel {
                            users: self.users.put(visitor, user.placed(fresh)),
                            ..s1
                        };
                        s2.lemma_slot_wf(Some(fresh));
                    },
                }
            },
            _ => {},
        }
    }

    /// Rendering keeps the state well formed.
    pub proof fn lemma_read_wf(self, visitor: Seq<char>)
        requires
            self.wf(),
        ensures
            self.read(visitor).wf(),
    {
        match self.room_of(visitor) {
            Some(r) => {
                self.lemma_put_room_wf(r, self.chats.get(r).read_by(visitor));
            },
            None => {},
        }
    }

    /// Asking for a room keeps the state well formed.
    pub proof fn lemma_assigned_wf(self, visitor: Seq<char>, now: TimeStamp, fresh: Seq<char>)
        requires
            self.wf(),
        ensures
            self.assigned(visitor, now, fresh).wf(),
    {
        self.lemma_placed_wf(visitor, now, fresh);
        self.placed(visitor, now, fresh).lemma_read_wf(visitor);
    }

    /// Leaving keeps the state well formed.
    pub proof fn lemma_left_wf(self, visitor: Seq<char>, now: TimeStamp)
        requires
            self.wf(),
        ensures
            self.left(visitor, now).wf(),
    {
        match self.room_of(visitor) {
            Some(r) => {
                let users = self.users.put(visitor, self.users.get(visitor).released());
                let slot = if self.next_room == Some(r) {
                    None
                } else {
                    self.next_room
                };
                self.users.lemma_put_wf(visitor, self.users.get(visitor).released());
                if self.leaves_last(visitor) {
                    self.lemma_without_room_wf(r);
                    let s1 = StateModel { chats: self.chats.without(r), ..self };
                    s1.lemma_users_wf(users);
                    (StateModel { users: users, ..s1 }).lemma_slot_wf(slot);
                } else {
                    let room = self.chats.get(r).terminated(visitor, now);
                    self.chats.get(r).lemma_terminated_wf(visitor, now);
                    self.lemma_put_room_wf(r, room);
                    let s1 = StateModel { chats: self.chats.put(r, room), ..self };
                    s1.lemma_users_wf(users);
                    (StateModel { users: users, ..s1 }).lemma_slot_wf(slot);
                }
            },
            None => {},
        }
    }

    /// Posting keeps the state well formed.
    pub proof fn lemma_posted_wf(
        self,
        visitor: Seq<char>,
        text: Seq<char>,
        now: TimeStamp,
        capacity: nat,
    )
        requires
            self.wf(),
        ensures
            self.posted(visitor, text, now, capacity).wf(),
    {
        if self.accepts_post(visitor) {
            let r = self.room_of(visitor)->0;
            self.lemma_put_room_wf(r, self.chats.get(r).posted(visitor, text, now, capacity));
        }
    }

    /// The sweep's dealing with one visitor keeps the state well formed.
    pub proof fn lemma_reaped_wf(self, visitor: Seq<char>, now: TimeStamp, config: Config)
        requires
            self.wf(),
        ensures
            self.reaped(visitor, now, config).wf(),
    {
        let r = self.room_ref(visitor)->0;
        let users = self.users.without(visitor);
        self.users.lemma_without_wf(visitor);
        match self.verdict(visitor, now, config) {
            Reaped::Kept | Reaped::MissingRoom | Reaped::BadRoom => {},
            Reaped::Visitor => {
                self.lemma_users_wf(users);
            },
            Reaped::Teardown | Reaped::StraySlot => {
                self.lemma_without_room_wf(r);
                (StateModel { chats: self.chats.without(r), ..self }).lemma_users_wf(users);
            },
            Reaped::WaitingRoom => {
                self.lemma_without_room_wf(r);
                let s1 = StateModel { chats: self.chats.without(r), ..self };
                s1.lemma_users_wf(users);
                (StateModel { users: users, ..s1 }).lemma_slot_wf(None);
            },
            Reaped::TimedOut => {
                let room = self.chats.get(r).terminated(visitor, now);
                self.chats.get(r).lemma_terminated_wf(visitor, now);
                self.lemma_put_room_wf(r, room);
                (StateModel { chats: self.chats.put(r, room), ..self }).lemma_users_wf(users);
            },
        }
    }

    /// The sweep keeps the state well formed.
    pub proof fn lemma_swept_wf(self, visitors: Seq<Seq<char>>, now: TimeStamp, config: Config)
        requires
            self.wf(),
        ensures
            self.swept(visitors, now, config).wf(),
        decreases visitors.len(),
    {
        if visitors.len() > 0 {
            self.lemma_reaped_wf(visitors[0], now, config);
            self.reaped(visitors[0], now, config).lemma_swept_wf(
                visitors.drop_first(),
                now,
                config,
            );
        }
    }
}

} // verus!

//! What holds in every state the service can reach, whatever its visitors do
//! and whenever the sweep runs.
use crate::clock::TimeStamp;
use crate::config::Config;
use crate::model::Placement;
use crate::model::Reaped;
use crate::model::StateModel;
use vstd::prelude::*;

verus! {

/// One transition of the service.
pub enum Step {
    /// A contact is recorded.
    Touch { visitor: Seq<char>, now: TimeStamp },
    /// A contact is identified, and entered where it is new.
    Identify { cookie: Option<Seq<char>>, now: TimeStamp, fresh: Seq<char> },
    /// A visitor is taken out of the directory.
    Remove { visitor: Seq<char> },
    /// A visitor asks for a room.
    Assign { visitor: Seq<char>, now: TimeStamp, fresh: Seq<char> },
    /// A visitor enters: it is placed where it has no room, and renders.
    Enter { visitor: Seq<char>, now: TimeStamp, fresh: Seq<char> },
    /// A visitor leaves its room.
    Leave { visitor: Seq<char>, now: TimeStamp },
    /// A visitor posts a message.
    Post { visitor: Seq<char>, text: Seq<char>, now: TimeStamp, capacity: nat },
    /// A visitor submits a form.
    Submit { visitor: Seq<char>, fields: Seq<(Seq<char>, Seq<char>)>, now: TimeStamp, capacity: nat },
    /// A visitor renders its room.
    Read { visitor: Seq<char> },
    /// A visitor fetches its messages.
    Fetch { visitor: Seq<char>, now: TimeStamp },
    /// The sweep deals with one visitor.
    Reap { visitor: Seq<char>, now: TimeStamp, config: Config },
    /// The sweep deals with a list of visitors.
    Sweep { visitors: Seq<Seq<char>>, now: TimeStamp, config: Config },
}

impl StateModel {
    /// Every room has one or two participants.
    pub open spec fn sized(self) -> bool {
        forall|r: Seq<char>|
            self.chats.contains(r) ==> 1 <= (#[trigger] self.chats.get(r)).users.len() <= 2
    }

    /// A room with one participant that nobody has left is the room in the slot.
    pub open spec fn loners_wait(self) -> bool {
        forall|r: Seq<char>|
            self.chats.contains(r) && (#[trigger] self.chats.get(r)).users.len() == 1
                && self.chats.get(r).terminator is None ==> self.next_room == Some(r)
    }

    /// A room that somebody has left has one participant, and it is not
    /// the one who left.
    pub open spec fn left_alone(self) -> bool {
        forall|r: Seq<char>|
            self.chats.contains(r) && (#[trigger] self.chats.get(r)).terminator is Some
                ==> self.chats.get(r).users.len() == 1 && !self.chats.get(r).users.contains(
                self.chats.get(r).terminator->0,
            )
    }

    /// The room a visitor refers to is in the registry and lists the visitor.
    pub open spec fn refers_listed(self) -> bool {
        forall|v: Seq<char>|
            self.users.contains(v) && (#[trigger] self.users.get(v)).room_id is Some ==> {
                let r = self.users.get(v).room_id->0;
                self.chats.contains(r) && self.chats.get(r).users.contains(v)
            }
    }

    /// Whoever a room lists is a visitor of the directory and refers to that room.
    pub open spec fn listed_refers(self) -> bool {
        forall|r: Seq<char>, v: Seq<char>|
            self.chats.contains(r) && #[trigger] self.chats.get(r).users.contains(v)
                ==> self.users.contains(v) && self.users.get(v).room_id == Some(r)
    }

    /// What holds in every reachable state: the collections are well formed;
    /// the slot points at nothing, or at a room of the registry with one
    /// participant that nobody has left; every room has one or two
    /// participants, and one once somebody has left it; whoever waits alone
    /// waits in the slot; and the visitors' references and the rooms' lists of
    /// participants agree.
    pub open spec fn sound(self) -> bool {
        &&& self.wf()
        &&& self.slot_ok()
        &&& self.sized()
        &&& self.loners_wait()
        &&& self.left_alone()
        &&& self.refers_listed()
        &&& self.listed_refers()
    }

    /// The state after `step`. A visitor that refers to a room is not taken
    /// out of the directory: such a removal changes nothing.
    pub open spec fn after(self, step: Step) -> StateModel {
        match step {
            Step::Touch { visitor, now } => self.touched(visitor, now),
            Step::Identify { cookie, now, fresh } => self.identified(cookie, now, fresh),
            Step::Remove { visitor } => if self.room_ref(visitor) is None {
                self.removed(visitor)
            } else {
                self
            },
            Step::Assign { visitor, now, fresh } => self.assigned(visitor, now, fresh),
            Step::Enter { visitor, now, fresh } => self.entered(visitor, now, fresh),
            Step::Leave { visitor, now } => self.left(visitor, now),
            Step::Post { visitor, text, now, capacity } => self.posted(
                visitor,
                text,
                now,
                capacity,
            ),
            Step::Submit { visitor, fields, now, capacity } => self.submitted(
                visitor,
                fields,
                now,
                capacity,
            ),
            Step::Read { visitor } => self.read(visitor),
            Step::Fetch { visitor, now } => self.fetched(visitor, now),
            Step::Reap { visitor, now, config } => self.reaped(visitor, now, config),
            Step::Sweep { visitors, now, config } => self.swept(visitors, now, config),
        }
    }

    /// The state after `steps`, one after the other.
    pub open spec fn run(self, steps: Seq<Step>) -> StateModel
        decreases steps.len(),
    {
        if steps.len() == 0 {
            self
        } else {
            self.run(steps.drop_last()).after(steps.last())
        }
    }

    /// A state that differs from a sound one in the directory alone, and there
    /// in nobody's room reference, is sound.
    pub proof fn lemma_same_rooms_sound(self, after: StateModel)
        requires
            self.sound(),
            after.wf(),
            after.chats == self.chats,
            after.next_room == self.next_room,
            forall|v: Seq<char>|
                after.users.contains(v) && (#[trigger] after.users.get(v)).room_id is Some
                    ==> self.users.contains(v) && self.users.get(v).room_id == after.users.get(
                    v,
                ).room_id,
            forall|v: Seq<char>|
                self.users.contains(v) && (#[trigger] self.users.get(v)).room_id is Some
                    ==> after.users.contains(v) && after.users.get(v).room_id == self.users.get(
                    v,
                ).room_id,
        ensures
            after.sound(),
    {
        assert forall|v: Seq<char>|
            after.users.contains(v) && (#[trigger] after.users.get(v)).room_id is Some implies {
            let r = after.users.get(v).room_id->0;
            after.chats.contains(r) && after.chats.get(r).users.contains(v)
        } by {
            assert(self.users.get(v).room_id is Some);
        }
        assert forall|r: Seq<char>, v: Seq<char>|
            after.chats.contains(r) && #[trigger] after.chats.get(r).users.contains(
                v,
            ) implies after.users.contains(v) && after.users.get(v).room_id == Some(r) by {
            assert(self.chats.get(r).users.contains(v));
            assert(self.users.get(v).room_id is Some);
        }
    }

    /// A state that differs from a sound one in one room alone, and there
    /// neither in the participants nor in the terminator, is sound.
    pub proof fn lemma_same_shape_sound(self, after: StateModel, room: Seq<char>)
        requires
            self.sound(),
            after.wf(),
            self.chats.contains(room),
            after.users == self.users,
            after.next_room == self.next_room,
            after.chats == self.chats.put(room, after.chats.get(room)),
            after.chats.get(room).users == self.chats.get(room).users,
            after.chats.get(room).terminator == self.chats.get(room).terminator,
        ensures
            after.sound(),
    {
        assert forall|r: Seq<char>| after.chats.contains(r) implies 1 <= (
        #[trigger] after.chats.get(r)).users.len() <= 2 by {
            assert(self.chats.contains(r));
            assert(after.chats.get(r).users == self.chats.get(r).users);
        }
        assert forall|r: Seq<char>|
            after.chats.contains(r) && (#[trigger] after.chats.get(r)).users.len() == 1
                && after.chats.get(r).terminator is None implies after.next_room == Some(
            r,
        ) by {
            assert(self.chats.contains(r));
            assert(after.chats.get(r).users == self.chats.get(r).users);
            assert(after.chats.get(r).terminator == self.chats.get(r).terminator);
        }
        assert forall|r: Seq<char>|
            after.chats.contains(r) && (#[trigger] after.chats.get(r)).terminator is Some
            implies after.chats.get(r).users.len() == 1 && !after.chats.get(r).users.contains(
            after.chats.get(r).terminator->0,
        ) by {
            assert(self.chats.contains(r));
            assert(after.chats.get(r).users == self.chats.get(r).users);
            assert(after.chats.get(r).terminator == self.chats.get(r).terminator);
        }
        assert forall|v: Seq<char>|
            after.users.contains(v) && (#[trigger] after.users.get(v)).room_id is Some implies {
            let r = after.users.get(v).room_id->0;
            after.chats.contains(r) && after.chats.get(r).users.contains(v)
        } by {
            let r = self.users.get(v).room_id->0;
            assert(self.chats.contains(r) && self.chats.get(r).users.contains(v));
            assert(after.chats.get(r).users == self.chats.get(r).users);
        }
        assert forall|r: Seq<char>, v: Seq<char>|
            after.chats.contains(r) && #[trigger] after.chats.get(r).users.contains(
                v,
            ) implies after.users.contains(v) && after.users.get(v).room_id == Some(r) by {
            assert(self.chats.contains(r));
            assert(after.chats.get(r).users == self.chats.get(r).users);
            assert(self.chats.get(r).users.contains(v));
        }
        if after.next_room is Some {
            let w = after.next_room->0;
            assert(after.chats.get(w).users == self.chats.get(w).users);
            assert(after.chats.get(w).terminator == self.chats.get(w).terminator);
        }
    }

    /// A contact keeps a sound state sound.
    pub proof fn lemma_touched_sound(self, visitor: Seq<char>, now: TimeStamp)
        requires
            self.sound(),
        ensures
            self.touched(visitor, now).sound(),
    {
        self.lemma_touched_wf(visitor, now);
        self.lemma_same_rooms_sound(self.touched(visitor, now));
    }

    /// Identifying a contact keeps a sound state sound.
    pub proof fn lemma_identified_sound(
        self,
        cookie: Option<Seq<char>>,
        now: TimeStamp,
        fresh: Seq<char>,
    )
        requires
            self.sound(),
        ensures
            self.identified(cookie, now, fresh).sound(),
    {
        self.lemma_identified_wf(cookie, now, fresh);
        self.lemma_same_rooms_sound(self.identified(cookie, now, fresh));
    }

    /// Taking a visitor without a room out of the directory keeps a sound
    /// state sound.
    pub proof fn lemma_removed_sound(self, visitor: Seq<char>)
        requires
            self.sound(),
            self.room_ref(visitor) is None,
        ensures
            self.removed(visitor).sound(),
    {
        self.lemma_removed_wf(visitor);
        self.lemma_same_rooms_sound(self.removed(visitor));
    }

    /// Rendering keeps a sound state sound.
    pub proof fn lemma_read_sound(self, visitor: Seq<char>)
        requires
            self.sound(),
        ensures
            self.read(visitor).sound(),
    {
        self.lemma_read_wf(visitor);
        match self.room_of(visitor) {
            Some(room) => {
                self.lemma_same_shape_sound(self.read(visitor), room);
            },
            None => {},
        }
    }

    /// Posting keeps a sound state sound.
    pub proof fn lemma_posted_sound(
        self,
        visitor: Seq<char>,
        text: Seq<char>,
        now: TimeStamp,
        capacity: nat,
    )
        requires
            self.sound(),
        ensures
            self.posted(visitor, text, now, capacity).sound(),
    {
        self.lemma_posted_wf(visitor, text, now, capacity);
        if self.accepts_post(visitor) {
            self.lemma_same_shape_sound(
                self.posted(visitor, text, now, capacity),
                self.room_of(visitor)->0,
            );
        }
    }

    /// The matchmaker keeps a sound state sound.
    pub proof fn lemma_placed_sound(self, visitor: Seq<char>, now: TimeStamp, fresh: Seq<char>)
        requires
            self.sound(),
        ensures
            self.placed(visitor, now, fresh).sound(),
    {
        self.lemma_placed_wf(visitor, now, fresh);
        let after = self.placed(visitor, now, fresh);
        match self.placement(visitor, fresh) {
            Placement::Waiting | Placement::Paired => {
                let room = match self.waiting() {
                    Some(w) => w,
                    None => fresh,
                };
                let joined = after.chats.get(room);
                if self.waiting() is Some {
                    let before = self.chats.get(room);
                    assert(before.users.len() == 1 && before.terminator is None);
                    if before.users.contains(visitor) {
                        assert(self.users.get(visitor).room_id == Some(room));
                    }
                    assert(joined.users == before.users.push(visitor));
                    assert(joined.users[1] == visitor);
                    assert(after.next_room is None);
                } else {
                    assert(self.next_room is None);
                    assert(joined.users == seq![visitor]);
                    assert(joined.users[0] == visitor);
                }
                assert(joined.users.contains(visitor));
                assert(joined.terminator is None);
                assert forall|r: Seq<char>| after.chats.contains(r) implies 1 <= (
                #[trigger] after.chats.get(r)).users.len() <= 2 by {
                    if r != room {
                        assert(self.chats.contains(r));
                        assert(after.chats.get(r) == self.chats.get(r));
                    }
                }
                assert forall|r: Seq<char>|
                    after.chats.contains(r) && (#[trigger] after.chats.get(r)).users.len() == 1
                        && after.chats.get(r).terminator is None implies after.next_room
                    == Some(r) by {
                    if r != room {
                        assert(self.chats.contains(r));
                        assert(after.chats.get(r) == self.chats.get(r));
                        assert(self.next_room == Some(r));
                    }
                }
                assert forall|r: Seq<char>|
                    after.chats.contains(r) && (#[trigger] after.chats.get(r)).terminator is Some
                    implies after.chats.get(r).users.len() == 1 && !after.chats.get(
                    r,
                ).users.contains(after.chats.get(r).terminator->0) by {
                    if r != room {
                        assert(self.chats.contains(r));
                        assert(after.chats.get(r) == self.chats.get(r));
                    }
                }
                assert forall|v: Seq<char>|
                    after.users.contains(v) && (#[trigger] after.users.get(v)).room_id is Some
                    implies {
                    let r = after.users.get(v).room_id->0;
                    after.chats.contains(r) && after.chats.get(r).users.contains(v)
                } by {
                    if v != visitor {
                        assert(after.users.get(v) == self.users.get(v));
                        let r = self.users.get(v).room_id->0;
                        assert(self.chats.contains(r) && self.chats.get(r).users.contains(v));
                        if r == room {
                            let i = choose|i: int|
                                0 <= i < self.chats.get(r).users.len() && self.chats.get(
                                    r,
                                ).users[i] == v;
                            assert(joined.users[i] == v);
                        } else {
                            assert(after.chats.get(r) == self.chats.get(r));
                        }
                    }
                }
                assert forall|r: Seq<char>, v: Seq<char>|
                    after.chats.contains(r) && #[trigger] after.chats.get(r).users.contains(
                        v,
                    ) implies after.users.contains(v) && after.users.get(v).room_id == Some(
                    r,
                ) by {
                    if r != room {
                        assert(self.chats.contains(r));
                        assert(after.chats.get(r) == self.chats.get(r));
                        assert(self.chats.get(r).users.contains(v));
                        assert(self.users.get(v).room_id == Some(r));
                        assert(v != visitor);
                    } else if v != visitor {
                        let i = choose|i: int|
                            0 <= i < joined.users.len() && joined.users[i] == v;
                        assert(self.chats.contains(r));
                        assert(self.chats.get(r).users[i] == v);
                        assert(self.chats.get(r).users.contains(v));
                    }
                }
            },
            _ => {},
        }
    }

    /// Leaving keeps a sound state sound.
    pub proof fn lemma_left_sound(self, visitor: Seq<char>, now: TimeStamp)
        requires
            self.sound(),
        ensures
            self.left(visitor, now).sound(),
    {
        self.lemma_left_wf(visitor, now);
        let after = self.left(visitor, now);
        match self.room_of(visitor) {
            Some(room) => {
                let before = self.chats.get(room);
                assert(self.users.get(visitor).room_id == Some(room));
                assert(before.users.contains(visitor));
                before.lemma_others(visitor);
                if !self.leaves_last(visitor) {
                    assert(before.users.len() == 2);
                    assert(self.next_room != Some(room));
                }
                self.lemma_takes_leave(after, visitor, room);
            },
            None => {},
        }
    }

    /// A state in which `visitor` has gone from `room`, which it was in, is
    /// sound where the state before was: the room keeps its other participant
    /// and has the visitor for its terminator, or, where the visitor was the
    /// last, the room has gone as well; the visitor refers to no room or has
    /// gone from the directory; and the slot lost the room if it pointed at
    /// it.
    pub proof fn lemma_takes_leave(self, after: StateModel, visitor: Seq<char>, room: Seq<char>)
        requires
            self.sound(),
            after.wf(),
            self.room_of(visitor) == Some(room),
            !after.users.contains(visitor) || after.users.get(visitor).room_id is None,
            forall|v: Seq<char>|
                v != visitor ==> after.users.contains(v) == self.users.contains(v)
                    && #[trigger] after.users.get(v) == self.users.get(v),
            forall|r: Seq<char>|
                r != room ==> after.chats.contains(r) == self.chats.contains(r)
                    && #[trigger] after.chats.get(r) == self.chats.get(r),
            after.next_room == self.next_room || (after.next_room is None && self.next_room
                == Some(room)),
            ({
                ||| !after.chats.contains(room) && (self.chats.get(room).terminator is Some
                    || self.chats.get(room).users.len() == 1) && (after.next_room is None
                    || self.next_room != Some(room))
                ||| after.chats.contains(room) && self.chats.get(room).terminator is None
                    && self.chats.get(room).users.len() == 2 && after.chats.get(room).users
                    == self.chats.get(room).others(visitor) && after.chats.get(room).terminator
                    == Some(visitor)
            }),
        ensures
            after.sound(),
    {
        let before = self.chats.get(room);
        assert(self.users.get(visitor).room_id == Some(room));
        assert(before.users.contains(visitor));
        before.lemma_others(visitor);
        assert forall|r: Seq<char>| after.chats.contains(r) implies 1 <= (
        #[trigger] after.chats.get(r)).users.len() <= 2 by {
            if r != room {
                assert(self.chats.contains(r));
                assert(after.chats.get(r) == self.chats.get(r));
            }
        }
        assert forall|r: Seq<char>|
            after.chats.contains(r) && (#[trigger] after.chats.get(r)).users.len() == 1
                && after.chats.get(r).terminator is None implies after.next_room == Some(
            r,
        ) by {
            if r != room {
                assert(self.chats.contains(r));
                assert(after.chats.get(r) == self.chats.get(r));
                assert(self.next_room == Some(r));
            }
        }
        assert forall|r: Seq<char>|
            after.chats.contains(r) && (#[trigger] after.chats.get(r)).terminator is Some
            implies after.chats.get(r).users.len() == 1 && !after.chats.get(r).users.contains(
            after.chats.get(r).terminator->0,
        ) by {
            if r != room {
                assert(self.chats.contains(r));
                assert(after.chats.get(r) == self.chats.get(r));
            }
        }
        assert forall|v: Seq<char>|
            after.users.contains(v) && (#[trigger] after.users.get(v)).room_id is Some implies {
            let r = after.users.get(v).room_id->0;
            after.chats.contains(r) && after.chats.get(r).users.contains(v)
        } by {
            assert(v != visitor);
            assert(after.users.get(v) == self.users.get(v));
            let r = self.users.get(v).room_id->0;
            assert(self.chats.contains(r) && self.chats.get(r).users.contains(v));
            if r == room {
                if before.users.len() == 1 {
                    let i = choose|i: int| 0 <= i < before.users.len() && before.users[i] == v;
                    let j = choose|j: int|
                        0 <= j < before.users.len() && before.users[j] == visitor;
                    assert(i == 0 && j == 0);
                }
            } else {
                assert(after.chats.get(r) == self.chats.get(r));
            }
        }
        assert forall|r: Seq<char>, v: Seq<char>|
            after.chats.contains(r) && #[trigger] after.chats.get(r).users.contains(
                v,
            ) implies after.users.contains(v) && after.users.get(v).room_id == Some(r) by {
            if r != room {
                assert(self.chats.contains(r));
                assert(after.chats.get(r) == self.chats.get(r));
                assert(self.chats.get(r).users.contains(v));
                assert(self.users.get(v).room_id == Some(r));
                assert(v != visitor);
                assert(after.users.get(v) == self.users.get(v));
            } else {
                assert(v != visitor);
                assert(before.users.contains(v));
                assert(after.users.get(v) == self.users.get(v));
            }
        }
        if after.next_room is Some {
            let w = after.next_room->0;
            assert(self.next_room == Some(w));
            if w != room {
                assert(after.chats.get(w) == self.chats.get(w));
            }
        }
    }

    /// One step of the sweep keeps a sound state sound.
    pub proof fn lemma_reaped_sound(self, visitor: Seq<char>, now: TimeStamp, config: Config)
        requires
            self.sound(),
        ensures
            self.reaped(visitor, now, config).sound(),
    {
        self.lemma_reaped_wf(visitor, now, config);
        let after = self.reaped(visitor, now, config);
        match self.verdict(visitor, now, config) {
            Reaped::Kept | Reaped::MissingRoom | Reaped::BadRoom => {},
            Reaped::Visitor => {
                self.lemma_same_rooms_sound(after);
            },
            _ => {
                let room = self.room_ref(visitor)->0;
                let before = self.chats.get(room);
                assert(before.users.contains(visitor));
                before.lemma_others(visitor);
                self.lemma_takes_leave(after, visitor, room);
            },
        }
    }

    /// The sweep keeps a sound state sound.
    pub proof fn lemma_swept_sound(self, visitors: Seq<Seq<char>>, now: TimeStamp, config: Config)
        requires
            self.sound(),
        ensures
            self.swept(visitors, now, config).sound(),
        decreases visitors.len(),
    {
        if visitors.len() > 0 {
            self.lemma_reaped_sound(visitors[0], now, config);
            self.reaped(visitors[0], now, config).lemma_swept_sound(
                visitors.drop_first(),
                now,
                config,
            );
        }
    }

    /// Every transition keeps a sound state sound.
    pub proof fn law_step_keeps_sound(self, step: Step)
        requires
            self.sound(),
        ensures
            self.after(step).sound(),
    {
        match step {
            Step::Touch { visitor, now } => {
                self.lemma_touched_sound(visitor, now);
            },
            Step::Identify { cookie, now, fresh } => {
                self.lemma_identified_sound(cookie, now, fresh);
            },
            Step::Remove { visitor } => {
                if self.room_ref(visitor) is None {
                    self.lemma_removed_sound(visitor);
                }
            },
            Step::Assign { visitor, now, fresh } => {
                self.lemma_placed_sound(visitor, now, fresh);
                self.placed(visitor, now, fresh).lemma_read_sound(visitor);
            },
            Step::Enter { visitor, now, fresh } => {
                self.lemma_placed_sound(visitor, now, fresh);
                self.placed(visitor, now, fresh).lemma_read_sound(visitor);
            },
            Step::Leave { visitor, now } => {
                self.lemma_left_sound(visitor, now);
            },
            Step::Post { visitor, text, now, capacity } => {
                self.lemma_posted_sound(visitor, text, now, capacity);
            },
            Step::Submit { visitor, fields, now, capacity } => {
                self.lemma_touched_sound(visitor, now);
                if crate::form::message_field(fields) is Some {
                    self.touched(visitor, now).lemma_posted_sound(
                        visitor,
                        crate::form::message_field(fields)->0,
                        now,
                        capacity,
                    );
                }
            },
            Step::Read { visitor } => {
                self.lemma_read_sound(visitor);
            },
            Step::Fetch { visitor, now } => {
                self.lemma_touched_sound(visitor, now);
                self.touched(visitor, now).lemma_read_sound(visitor);
            },
            Step::Reap { visitor, now, config } => {
                self.lemma_reaped_sound(visitor, now, config);
            },
            Step::Sweep { visitors, now, config } => {
                self.lemma_swept_sound(visitors, now, config);
            },
        }
    }

    /// Every state the service can reach from its start is sound: whatever
    /// transitions are taken, in whatever order, the slot points at nothing or
    /// at a registered room with one participant that nobody has left, every
    /// room has one or two participants, and the visitors' references and the
    /// rooms' participants agree.
    pub proof fn law_reachable_states_are_sound(steps: Seq<Step>)
        ensures
            StateModel::empty().run(steps).sound(),
        decreases steps.len(),
    {
        if steps.len() == 0 {
            let start = StateModel::empty();
            assert(start.users.wf());
            assert(start.chats.wf());
        } else {
            Self::law_reachable_states_are_sound(steps.drop_last());
            StateModel::empty().run(steps.drop_last()).law_step_keeps_sound(steps.last());
        }
    }

    /// In a sound state the sweep meets no fault: no visitor refers to a room
    /// the registry does not hold, no room has a participant count other than
    /// one or two, and nobody waits alone outside the slot. And nobody refers
    /// to a room that it has left itself, so that every stale visitor is dealt
    /// with.
    pub proof fn law_sound_sweep_meets_no_fault(
        self,
        visitor: Seq<char>,
        now: TimeStamp,
        config: Config,
    )
        requires
            self.sound(),
        ensures
            self.verdict(visitor, now, config) != Reaped::BadRoom,
            self.verdict(visitor, now, config) != Reaped::StraySlot,
            self.verdict(visitor, now, config) != Reaped::MissingRoom,
            self.room_of(visitor) matches Some(r) ==> self.chats.get(r).terminator != Some(
                visitor,
            ),
    {
        if self.users.contains(visitor) && self.users.get(visitor).room_id is Some {
            let r = self.users.get(visitor).room_id->0;
            let room = self.chats.get(r);
            assert(self.chats.contains(r) && room.users.contains(visitor));
            assert(room.terminator is Some ==> !room.users.contains(room.terminator->0));
        }
    }
}

} // verus!

//! A room: up to two visitors and the bounded ledger of what they wrote.
use crate::clock::get_timestamp;
use crate::clock::TimeStamp;
use crate::keys::distinct;
use crate::keys::lemma_place_of;
use crate::keys::place_of;
use crate::keys::position;
use crate::message::ChatId;
use crate::message::Message;
use crate::message::MessageModel;
use crate::message::MessageView;
use crate::message::MessageViewModel;
use crate::message::UserId;
use crate::text::decimal;
use crate::text::decimal_string;
use vstd::prelude::*;

verus! {

/// Where a room stands in its life.
#[derive(Clone, Copy, Debug, PartialEq, Eq, Structural)]
pub enum RoomPhase {
    /// One participant, nobody has left.
    Waiting,
    /// Two participants, nobody has left.
    Active,
    /// One participant has left.
    Terminated,
}

/// A pairing context: who is in it, what was said, and who left first.
#[derive(Clone, Debug)]
pub struct ChatRoom {
    id: ChatId,
    users: Vec<UserId>,
    messages: Vec<Message>,
    terminator: Option<UserId>,
    created: TimeStamp,
}

/// The mathematical content of a [`ChatRoom`].
pub struct RoomModel {
    pub id: Seq<char>,
    /// The participants in the order in which they joined.
    pub users: Seq<Seq<char>>,
    /// The ledger, oldest message first.
    pub messages: Seq<MessageModel>,
    /// The participant who left first, if any has left.
    pub terminator: Option<Seq<char>>,
    pub created: TimeStamp,
}

/// The body of the message that opens every ledger.
pub open spec fn opening_text() -> Seq<char> {
    "Chat initiated"@
}

/// The body of the message that records a departure.
pub open spec fn departure_text() -> Seq<char> {
    "User left the room"@
}

/// The name under which a dump lists the room's own messages.
pub open spec fn system_name() -> Seq<char> {
    "system"@
}

/// A message of the room itself, written at `now`.
pub open spec fn system_message(text: Seq<char>, now: TimeStamp) -> MessageModel {
    MessageModel { sender: None, seen: false, time: now, msg: text }
}

/// The newest `capacity` entries of `ledger`, or all of it where it holds fewer.
pub open spec fn keep_newest(ledger: Seq<MessageModel>, capacity: nat) -> Seq<MessageModel> {
    if ledger.len() > capacity {
        ledger.skip(ledger.len() - capacity)
    } else {
        ledger
    }
}

/// One line of a dump: time, author and body, separated by bars.
pub open spec fn dump_line(m: MessageModel) -> Seq<char> {
    decimal(m.time as nat).push('|') + match m.sender {
        Some(s) => s,
        None => system_name(),
    } + seq!['|'] + m.msg
}

/// The lines of `ledger`, one per message, with a line feed between two of them.
pub open spec fn dump_lines(ledger: Seq<MessageModel>) -> Seq<char>
    decreases ledger.len(),
{
    if ledger.len() == 0 {
        Seq::empty()
    } else if ledger.len() == 1 {
        dump_line(ledger[0])
    } else {
        dump_lines(ledger.drop_last()).push('\n') + dump_line(ledger.last())
    }
}

/// `name` between double quotes.
pub open spec fn quoted(name: Seq<char>) -> Seq<char> {
    seq!['"'] + name + seq!['"']
}

/// The names of `users`, each between double quotes, with a comma and a blank
/// between two of them.
pub open spec fn quoted_list(users: Seq<Seq<char>>) -> Seq<char>
    decreases users.len(),
{
    if users.len() == 0 {
        Seq::empty()
    } else if users.len() == 1 {
        quoted(users[0])
    } else {
        quoted_list(users.drop_last()) + seq![',', ' '] + quoted(users.last())
    }
}

impl RoomModel {
    /// How a dump lists the participants: the quoted names between braces.
    pub open spec fn users_text(self) -> Seq<char> {
        seq!['{'] + quoted_list(self.users) + seq!['}']
    }

    /// How many participants other than `visitor` the room has.
    pub open spec fn peers_of(self, visitor: Seq<char>) -> nat {
        if self.users.contains(visitor) {
            (self.users.len() - 1) as nat
        } else {
            self.users.len()
        }
    }

    /// No participant is listed twice.
    pub open spec fn wf(self) -> bool {
        distinct(self.users)
    }

    /// A room opened by `initiator` at `now`: one participant, one opening message.
    pub open spec fn fresh(id: Seq<char>, initiator: Seq<char>, now: TimeStamp) -> RoomModel {
        RoomModel {
            id: id,
            users: seq![initiator],
            messages: seq![system_message(opening_text(), now)],
            terminator: None,
            created: now,
        }
    }

    /// The room with `user` among its participants.
    pub open spec fn joined(self, user: Seq<char>) -> RoomModel {
        if self.users.contains(user) {
            self
        } else {
            RoomModel { users: self.users.push(user), ..self }
        }
    }

    /// The participants without `user`.
    pub open spec fn others(self, user: Seq<char>) -> Seq<Seq<char>> {
        if self.users.contains(user) {
            self.users.remove(place_of(self.users, user))
        } else {
            self.users
        }
    }

    /// The room after `user` left it first at `now`: the one who left is no
    /// longer a participant, and the departure is recorded and announced at
    /// the end of the ledger.
    pub open spec fn terminated(self, user: Seq<char>, now: TimeStamp) -> RoomModel {
        RoomModel {
            users: self.others(user),
            terminator: Some(user),
            messages: self.messages.push(system_message(departure_text(), now)),
            ..self
        }
    }

    /// The room after `sender` wrote `text` at `now` into a ledger that keeps
    /// at most `capacity` messages: the oldest give way.
    pub open spec fn posted(
        self,
        sender: Seq<char>,
        text: Seq<char>,
        now: TimeStamp,
        capacity: nat,
    ) -> RoomModel {
        RoomModel {
            messages: keep_newest(
                self.messages.push(
                    MessageModel { sender: Some(sender), seen: false, time: now, msg: text },
                ),
                capacity,
            ),
            ..self
        }
    }

    /// Where the room stands in its life: terminated once somebody has left,
    /// else active with two participants or more, else waiting.
    pub open spec fn phase(self) -> RoomPhase {
        if self.terminator is Some {
            RoomPhase::Terminated
        } else if self.users.len() >= 2 {
            RoomPhase::Active
        } else {
            RoomPhase::Waiting
        }
    }

    /// The ledger as `viewer` sees it at `now`, newest message first.
    pub open spec fn inbox(self, viewer: Seq<char>, now: TimeStamp) -> Seq<MessageViewModel> {
        Seq::new(
            self.messages.len(),
            |i: int| self.messages[self.messages.len() - 1 - i].pov(Some(viewer), now),
        )
    }

    /// The room after `viewer` has rendered its ledger: every message written
    /// by somebody else is seen.
    pub open spec fn read_by(self, viewer: Seq<char>) -> RoomModel {
        RoomModel {
            messages: Seq::new(
                self.messages.len(),
                |i: int| self.messages[i].rendered_by(Some(viewer)),
            ),
            ..self
        }
    }
}

impl RoomModel {
    /// A room that takes a participant in still lists nobody twice.
    pub proof fn lemma_joined_wf(self, user: Seq<char>)
        requires
            self.wf(),
        ensures
            self.joined(user).wf(),
    {
        if !self.users.contains(user) {
            let grown = self.users.push(user);
            assert forall|i: int, j: int| 0 <= i < j < grown.len() implies grown[i] != grown[j] by {
                if j == self.users.len() {
                    assert(self.users[i] == grown[i]);
                    assert(self.users.contains(grown[i]));
                }
            }
        }
    }
}

impl RoomModel {
    /// Taking a participant out leaves a list without repetition that no
    /// longer holds the one taken out, and keeps everybody else.
    pub proof fn lemma_others(self, user: Seq<char>)
        requires
            self.wf(),
        ensures
            distinct(self.others(user)),
            !self.others(user).contains(user),
            self.others(user).len() == self.peers_of(user),
            forall|other: Seq<char>|
                other != user ==> self.others(user).contains(other) == self.users.contains(
                    other,
                ),
    {
        let rest = self.others(user);
        if self.users.contains(user) {
            let p = place_of(self.users, user);
            assert(0 <= p < self.users.len() && self.users[p] == user);
            assert forall|i: int, j: int| 0 <= i < j < rest.len() implies rest[i] != rest[j] by {
                let i0 = if i < p { i } else { i + 1 };
                let j0 = if j < p { j } else { j + 1 };
                assert(rest[i] == self.users[i0] && rest[j] == self.users[j0]);
            }
            if rest.contains(user) {
                let q = choose|q: int| 0 <= q < rest.len() && rest[q] == user;
                let q0 = if q < p { q } else { q + 1 };
                assert(self.users[q0] == user);
                if q0 < p {
                    assert(self.users[q0] != self.users[p]);
                } else {
                    assert(self.users[p] != self.users[q0]);
                }
            }
            assert forall|other: Seq<char>| other != user implies rest.contains(other)
                == self.users.contains(other) by {
                if rest.contains(other) {
                    let q = choose|q: int| 0 <= q < rest.len() && rest[q] == other;
                    let q0 = if q < p { q } else { q + 1 };
                    assert(self.users[q0] == other);
                }
                if self.users.contains(other) {
                    let q = choose|q: int| 0 <= q < self.users.len() && self.users[q] == other;
                    let q1 = if q < p { q } else { q - 1 };
                    assert(rest[q1] == other);
                }
            }
        }
    }

    /// A room that somebody leaves still lists nobody twice.
    pub proof fn lemma_terminated_wf(self, user: Seq<char>, now: TimeStamp)
        requires
            self.wf(),
        ensures
            self.terminated(user, now).wf(),
    {
        self.lemma_others(user);
    }
}

impl View for ChatRoom {
    type V = RoomModel;

    closed spec fn view(&self) -> RoomModel {
        RoomModel {
            id: self.id@,
            users: self.users.deep_view(),
            messages: self.messages.deep_view(),
            terminator: self.terminator.deep_view(),
            created: self.created,
        }
    }
}

impl DeepView for ChatRoom {
    type V = RoomModel;

    open spec fn deep_view(&self) -> RoomModel {
        self@
    }
}

impl ChatRoom {
    /// The invariant of the type: no participant is listed twice.
    pub open spec fn wf(&self) -> bool {
        self@.wf()
    }

    /// A room opened by `initiator` right now.
    pub fn new(id: ChatId, initiator: UserId) -> (room: ChatRoom)
        ensures
            room.wf(),
            exists|now: TimeStamp| room@ == RoomModel::fresh(id@, initiator@, now),
    {
        let now = get_timestamp();
        let room = ChatRoom::new_at(id, initiator, now);
        assert(room@ == RoomModel::fresh(id@, initiator@, now));
        room
    }

    /// A room opened by `initiator` at `now`.
    pub fn new_at(id: ChatId, initiator: UserId, now: TimeStamp) -> (room: ChatRoom)
        ensures
            room.wf(),
            room@ == RoomModel::fresh(id@, initiator@, now),
    {
        let mut users: Vec<UserId> = Vec::new();
        users.push(initiator);
        let mut messages: Vec<Message> = Vec::new();
        messages.push(Message::new_at(None, String::from_str("Chat initiated"), now));
        let room = ChatRoom {
            id: id,
            users: users,
            terminator: None,
            messages: messages,
            created: now,
        };
        assert(room@.users =~= seq![initiator@]);
        assert(room@.messages =~= seq![system_message(opening_text(), now)]);
        room
    }

    /// The room's identifier.
    pub fn id(&self) -> (id: &ChatId)
        ensures
            id@ == self@.id,
    {
        &self.id
    }

    /// The participants in the order in which they joined.
    pub fn users(&self) -> (users: &Vec<UserId>)
        ensures
            users.deep_view() == self@.users,
    {
        &self.users
    }

    /// The ledger, oldest message first.
    pub fn messages(&self) -> (messages: &Vec<Message>)
        ensures
            messages.deep_view() == self@.messages,
    {
        &self.messages
    }

    /// The participant who left first, if any has left.
    pub fn terminator(&self) -> (terminator: &Option<UserId>)
        ensures
            terminator.deep_view() == self@.terminator,
    {
        &self.terminator
    }

    /// When the room was opened.
    pub fn created(&self) -> (created: TimeStamp)
        ensures
            created == self@.created,
    {
        self.created
    }

    /// Where the room stands in its life.
    pub fn phase(&self) -> (phase: RoomPhase)
        ensures
            phase == self@.phase(),
    {
        if self.terminator.is_some() {
            RoomPhase::Terminated
        } else if self.users.len() >= 2 {
            RoomPhase::Active
        } else {
            RoomPhase::Waiting
        }
    }

    /// Whether a participant has left the room.
    pub fn is_terminated(&self) -> (left: bool)
        ensures
            left == (self@.terminator is Some),
    {
        self.terminator.is_some()
    }

    /// How many participants the room has.
    pub fn user_count(&self) -> (n: usize)
        ensures
            n == self@.users.len(),
    {
        self.users.len()
    }

    /// How many participants other than `visitor` the room has.
    pub fn peer_count(&self, visitor: &UserId) -> (n: usize)
        ensures
            n == self@.peers_of(visitor@),
    {
        match position(&self.users, visitor) {
            Some(_) => self.users.len() - 1,
            None => self.users.len(),
        }
    }

    /// The participants as a dump lists them: quoted, between braces.
    pub fn users_text(&self) -> (text: String)
        ensures
            text@ == self@.users_text(),
    {
        let ghost names = self.users.deep_view();
        let mut out = String::from_str("{");
        proof {
            reveal_strlit("{");
            reveal_strlit("}");
            reveal_strlit("\"");
            reveal_strlit(", ");
        }
        let mut i: usize = 0;
        assert(out@ =~= seq!['{'] + quoted_list(names.take(0)));
        while i < self.users.len()
            invariant
                i <= self.users.len(),
                names == self.users.deep_view(),
                out@ == seq!['{'] + quoted_list(names.take(i as int)),
                "\""@ == seq!['"'],
                ", "@ == seq![',', ' '],
            decreases self.users.len() - i,
        {
            let ghost head = out@;
            if i > 0 {
                out.append(", ");
            }
            out.append("\"");
            out.append(self.users[i].as_str());
            out.append("\"");
            proof {
                let upto = names.take(i + 1);
                assert(upto.last() == names[i as int]);
                assert(upto.drop_last() =~= names.take(i as int));
                if i > 0 {
                    assert(out@ =~= seq!['{'] + (quoted_list(names.take(i as int)) + seq![',', ' ']
                        + quoted(names[i as int])));
                } else {
                    assert(quoted_list(names.take(0)) =~= Seq::<char>::empty());
                    assert(out@ =~= seq!['{'] + quoted(names[i as int]));
                }
            }
            i = i + 1;
        }
        assert(names.take(i as int) =~= names);
        out.append("}");
        assert(out@ =~= self@.users_text());
        out
    }

    /// Whether `user` is one of the participants.
    pub fn has_user(&self, user: &UserId) -> (found: bool)
        ensures
            found == self@.users.contains(user@),
    {
        position(&self.users, user).is_some()
    }

    /// Adds `user` to the participants; a participant is not added again.
    pub fn add_user(&mut self, user: UserId)
        requires
            old(self).wf(),
        ensures
            final(self).wf(),
            final(self)@ == old(self)@.joined(user@),
    {
        proof {
            old(self)@.lemma_joined_wf(user@);
        }
        if position(&self.users, &user).is_none() {
            self.users.push(user);
            assert(self@.users =~= old(self)@.users.push(user@));
        }
    }

    /// Records right now that `user` left first: takes it out of the
    /// participants and says so in the ledger.
    pub fn terminate(&mut self, user: UserId)
        requires
            old(self).wf(),
        ensures
            final(self).wf(),
            exists|now: TimeStamp| final(self)@ == old(self)@.terminated(user@, now),
    {
        let now = get_timestamp();
        self.terminate_at(user, now);
        assert(self@ == old(self)@.terminated(user@, now));
    }

    /// Records that `user` left first at `now`: takes it out of the
    /// participants and says so in the ledger.
    pub fn terminate_at(&mut self, user: UserId, now: TimeStamp)
        requires
            old(self).wf(),
        ensures
            final(self).wf(),
            final(self)@ == old(self)@.terminated(user@, now),
    {
        proof {
            old(self)@.lemma_terminated_wf(user@, now);
        }
        match position(&self.users, &user) {
            Some(i) => {
                proof {
                    lemma_place_of(self.users.deep_view(), i as int);
                }
                self.users.remove(i);
                assert(self.users.deep_view() =~= old(self)@.users.remove(i as int));
            },
            None => {},
        }
        self.terminator = Some(user);
        self.messages.push(Message::new_at(None, String::from_str("User left the room"), now));
        assert(self@.messages =~= old(self)@.messages.push(
            system_message(departure_text(), now),
        ));
    }

    /// Appends a message by `sender` and evicts the oldest messages beyond
    /// `capacity`, whether they were seen or not.
    pub fn post(&mut self, sender: UserId, text: String, now: TimeStamp, capacity: usize)
        ensures
            final(self).wf() == old(self).wf(),
            final(self)@ == old(self)@.posted(sender@, text@, now, capacity as nat),
    {
        self.messages.push(Message::new_at(Some(sender), text, now));
        let ghost full = self.messages.deep_view();
        assert(full =~= old(self)@.messages.push(
            MessageModel { sender: Some(sender@), seen: false, time: now, msg: text@ },
        ));
        while self.messages.len() > capacity
            invariant
                self.messages.len() <= full.len(),
                full.len() <= capacity ==> self.messages.len() == full.len(),
                full.len() > capacity ==> self.messages.len() >= capacity,
                self.messages.deep_view() == full.skip(full.len() - self.messages.len()),
                self.id == old(self).id,
                self.users == old(self).users,
                self.terminator == old(self).terminator,
                self.created == old(self).created,
            decreases self.messages.len(),
        {
            let ghost before = self.messages.deep_view();
            self.messages.remove(0);
            assert(self.messages.deep_view() =~= before.skip(1));
            assert(before.skip(1) =~= full.skip(full.len() - self.messages.len()));
        }
        assert(full.skip(0) =~= full);
    }

    /// The ledger as `viewer` sees it at `now`, newest message first. Rendering
    /// is what delivers: every message written by somebody else is seen afterwards.
    pub fn render(&mut self, viewer: &UserId, now: TimeStamp) -> (views: Vec<MessageView>)
        ensures
            final(self).wf() == old(self).wf(),
            views.deep_view() == old(self)@.inbox(viewer@, now),
            final(self)@ == old(self)@.read_by(viewer@),
    {
        let who: Option<UserId> = Some(viewer.clone());
        let ghost before = self.messages.deep_view();
        let n: usize = self.messages.len();
        let mut views: Vec<MessageView> = Vec::new();
        let mut i: usize = n;
        while i > 0
            invariant
                i <= n,
                n == before.len(),
                self.messages.len() == n,
                who.deep_view() == Some(viewer@),
                views.len() == n - i,
                forall|k: int| 0 <= k < i ==> (#[trigger] self.messages@[k])@ == before[k],
                forall|k: int|
                    i <= k < n ==> (#[trigger] self.messages@[k])@ == before[k].rendered_by(
                        Some(viewer@),
                    ),
                forall|j: int|
                    0 <= j < n - i ==> (#[trigger] views@[j])@ == before[n - 1 - j].pov(
                        Some(viewer@),
                        now,
                    ),
                self.id == old(self).id,
                self.users == old(self).users,
                self.terminator == old(self).terminator,
                self.created == old(self).created,
            decreases i,
        {
            i = i - 1;
            let ghost ledger = self.messages@;
            let ghost shown = views@;
            let view = self.messages[i].pov_mut_at(&who, now);
            assert(forall|k: int| 0 <= k < n && k != i ==> self.messages@[k] == ledger[k]);
            views.push(view);
            assert(forall|j: int| 0 <= j < shown.len() ==> views@[j] == shown[j]);
        }
        assert(views.deep_view() =~= old(self)@.inbox(viewer@, now));
        assert(self@.messages =~= old(self)@.read_by(viewer@).messages);
        views
    }

    /// The ledger as lines of `time|author|body`, oldest first; the room's own
    /// messages are listed under the author `system`.
    pub fn dump(&self) -> (text: String)
        ensures
            text@ == dump_lines(self@.messages),
    {
        let ghost ledger = self.messages.deep_view();
        let mut out = String::new();
        let mut i: usize = 0;
        proof {
            reveal_strlit("|");
            reveal_strlit("\n");
        }
        while i < self.messages.len()
            invariant
                i <= self.messages.len(),
                ledger == self.messages.deep_view(),
                out@ == dump_lines(ledger.take(i as int)),
                "|"@ == seq!['|'],
                "\n"@ == seq!['\n'],
            decreases self.messages.len() - i,
        {
            let ghost head = out@;
            if i > 0 {
                out.append("\n");
            }
            let m = &self.messages[i];
            let stamp = decimal_string(m.time);
            out.append(stamp.as_str());
            out.append("|");
            match &m.sender {
                Some(s) => out.append(s.as_str()),
                None => out.append("system"),
            }
            out.append("|");
            out.append(m.msg.as_str());
            proof {
                let upto = ledger.take(i + 1);
                assert(upto.last() == ledger[i as int]);
                assert(upto.drop_last() =~= ledger.take(i as int));
                if i > 0 {
                    assert(out@ =~= head.push('\n') + dump_line(ledger[i as int]));
                } else {
                    assert(head =~= Seq::<char>::empty());
                    assert(out@ =~= dump_line(ledger[i as int]));
                }
            }
            i = i + 1;
        }
        assert(ledger.take(i as int) =~= ledger);
        out
    }
}

} // verus!

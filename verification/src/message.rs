//! Messages of a room's ledger and their rendering from one visitor's point of view.
use crate::clock::age;
use crate::clock::elapsed;
use crate::clock::get_timestamp;
use crate::clock::TimeStamp;
use crate::text::age_label;
use crate::text::format_duration;
use vstd::prelude::*;

verus! {

/// The opaque identifier of a visitor.
pub type UserId = String;

/// The opaque identifier of a room.
pub type ChatId = String;

/// Whose message a viewer is looking at.
#[derive(Clone, Copy, Debug, PartialEq, Eq, Structural)]
pub enum SenderKind {
    /// Written by the viewer.
    YOU,
    /// Written by somebody else in the room.
    THEM,
    /// Generated by the room itself.
    SYSTEM,
}

/// One entry of a room's ledger.
#[derive(Clone, Debug)]
pub struct Message {
    /// The author, or `None` for a message of the room itself.
    pub sender: Option<UserId>,
    /// Whether somebody other than the author has rendered the message.
    pub seen: bool,
    /// When the message was written.
    pub time: TimeStamp,
    /// The body.
    pub msg: String,
}

/// The mathematical content of a [`Message`].
pub struct MessageModel {
    pub sender: Option<Seq<char>>,
    pub seen: bool,
    pub time: TimeStamp,
    pub msg: Seq<char>,
}

/// A message as shown to one viewer.
#[derive(Clone, Debug)]
pub struct MessageView {
    pub senderkind: SenderKind,
    /// The age of the message as a coarse label.
    pub time: String,
    pub msg: String,
    /// The read receipt as it stood before this rendering.
    pub seen: bool,
}

/// The mathematical content of a [`MessageView`].
pub struct MessageViewModel {
    pub senderkind: SenderKind,
    pub time: Seq<char>,
    pub msg: Seq<char>,
    pub seen: bool,
}

impl View for Message {
    type V = MessageModel;

    open spec fn view(&self) -> MessageModel {
        MessageModel {
            sender: self.sender.deep_view(),
            seen: self.seen,
            time: self.time,
            msg: self.msg@,
        }
    }
}

impl DeepView for Message {
    type V = MessageModel;

    open spec fn deep_view(&self) -> MessageModel {
        self@
    }
}

impl View for MessageView {
    type V = MessageViewModel;

    open spec fn view(&self) -> MessageViewModel {
        MessageViewModel {
            senderkind: self.senderkind,
            time: self.time@,
            msg: self.msg@,
            seen: self.seen,
        }
    }
}

impl DeepView for MessageView {
    type V = MessageViewModel;

    open spec fn deep_view(&self) -> MessageViewModel {
        self@
    }
}

/// How a message by `sender` is classified for `viewer`: a message of the room
/// is always `SYSTEM`, and so is every message when nobody in particular looks.
pub open spec fn sender_kind(sender: Option<Seq<char>>, viewer: Option<Seq<char>>) -> SenderKind {
    match viewer {
        Some(v) => match sender {
            Some(s) => if s == v {
                SenderKind::YOU
            } else {
                SenderKind::THEM
            },
            None => SenderKind::SYSTEM,
        },
        None => SenderKind::SYSTEM,
    }
}

impl MessageModel {
    /// What `viewer` is shown of this message at time `now`.
    pub open spec fn pov(self, viewer: Option<Seq<char>>, now: TimeStamp) -> MessageViewModel {
        MessageViewModel {
            senderkind: sender_kind(self.sender, viewer),
            time: age_label(age(now, self.time)),
            msg: self.msg,
            seen: self.seen,
        }
    }

    /// The message after `viewer` has rendered it: somebody else's message
    /// becomes seen, every other message stays as it is.
    pub open spec fn rendered_by(self, viewer: Option<Seq<char>>) -> MessageModel {
        if sender_kind(self.sender, viewer) == SenderKind::THEM {
            MessageModel { seen: true, ..self }
        } else {
            self
        }
    }
}

/// A copy of an optional identifier.
pub fn copy_id(id: &Option<String>) -> (r: Option<String>)
    ensures
        r.deep_view() == id.deep_view(),
{
    match id {
        Some(s) => Some(s.clone()),
        None => None,
    }
}

impl Message {
    /// A fresh, unseen message stamped with the current time.
    pub fn new(from: Option<UserId>, msg: String) -> (m: Message)
        ensures
            m@.sender == from.deep_view(),
            m@.msg == msg@,
            !m@.seen,
    {
        Message::new_at(from, msg, get_timestamp())
    }

    /// A fresh, unseen message stamped with `now`.
    pub fn new_at(from: Option<UserId>, msg: String, now: TimeStamp) -> (m: Message)
        ensures
            m@ == (MessageModel { sender: from.deep_view(), seen: false, time: now, msg: msg@ }),
    {
        Message { seen: false, sender: from, msg: msg, time: now }
    }

    /// Classifies this message for `userid`.
    pub fn kind_for(&self, userid: &Option<UserId>) -> (kind: SenderKind)
        ensures
            kind == sender_kind(self@.sender, userid.deep_view()),
    {
        match userid {
            Some(user) => match &self.sender {
                Some(sender) => {
                    if *sender == *user {
                        SenderKind::YOU
                    } else {
                        SenderKind::THEM
                    }
                },
                None => SenderKind::SYSTEM,
            },
            None => SenderKind::SYSTEM,
        }
    }

    /// The message as `userid` sees it right now. The message is left untouched.
    pub fn pov(&self, userid: &Option<UserId>) -> (view: MessageView)
        ensures
            exists|now: TimeStamp| view@ == self@.pov(userid.deep_view(), now),
    {
        let now = get_timestamp();
        let view = self.pov_at(userid, now);
        assert(view@ == self@.pov(userid.deep_view(), now));
        view
    }

    /// The message as `userid` sees it at time `now`. The message is left untouched.
    pub fn pov_at(&self, userid: &Option<UserId>, now: TimeStamp) -> (view: MessageView)
        ensures
            view@ == self@.pov(userid.deep_view(), now),
    {
        MessageView {
            senderkind: self.kind_for(userid),
            time: format_duration(elapsed(self.time, now)),
            msg: self.msg.clone(),
            seen: self.seen,
        }
    }

    /// Renders the message for `userid` right now and records the read receipt:
    /// a message written by somebody else becomes seen.
    pub fn pov_mut(&mut self, userid: &Option<UserId>) -> (view: MessageView)
        ensures
            exists|now: TimeStamp| view@ == old(self)@.pov(userid.deep_view(), now),
            final(self)@ == old(self)@.rendered_by(userid.deep_view()),
    {
        let now = get_timestamp();
        let view = self.pov_mut_at(userid, now);
        assert(view@ == old(self)@.pov(userid.deep_view(), now));
        view
    }

    /// Renders the message for `userid` at time `now` and records the read
    /// receipt. The view shows the receipt as it stood before the call.
    pub fn pov_mut_at(&mut self, userid: &Option<UserId>, now: TimeStamp) -> (view: MessageView)
        ensures
            view@ == old(self)@.pov(userid.deep_view(), now),
            final(self)@ == old(self)@.rendered_by(userid.deep_view()),
    {
        let view = self.pov_at(userid, now);
        match view.senderkind {
            SenderKind::THEM => {
                self.seen = true;
            },
            _ => {},
        }
        view
    }
}

} // verus!

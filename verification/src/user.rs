//! The record the session directory keeps of one visitor.
use crate::clock::get_timestamp;
use crate::clock::TimeStamp;
use crate::message::ChatId;
use crate::message::UserId;
use vstd::prelude::*;

verus! {

/// What the directory knows of one visitor.
#[derive(Clone, Debug)]
pub struct UserState {
    /// When the visitor was first seen.
    pub first_seen: TimeStamp,
    /// When the visitor last made contact.
    pub last_seen: TimeStamp,
    /// How many rooms the visitor has been assigned to.
    pub chat_ctr: u64,
    /// The room the visitor is in, if any.
    pub room_id: Option<ChatId>,
    /// The visitor's identifier.
    pub id: UserId,
}

/// The mathematical content of a [`UserState`].
pub struct UserModel {
    pub first_seen: TimeStamp,
    pub last_seen: TimeStamp,
    pub chat_ctr: u64,
    pub room_id: Option<Seq<char>>,
    pub id: Seq<char>,
}

impl View for UserState {
    type V = UserModel;

    open spec fn view(&self) -> UserModel {
        UserModel {
            first_seen: self.first_seen,
            last_seen: self.last_seen,
            chat_ctr: self.chat_ctr,
            room_id: self.room_id.deep_view(),
            id: self.id@,
        }
    }
}

impl DeepView for UserState {
    type V = UserModel;

    open spec fn deep_view(&self) -> UserModel {
        self@
    }
}

impl UserModel {
    /// A visitor first seen at `now`, in no room.
    pub open spec fn fresh(id: Seq<char>, now: TimeStamp) -> UserModel {
        UserModel { first_seen: now, last_seen: now, chat_ctr: 0, room_id: None, id: id }
    }

    /// The visitor after a contact at `now`.
    pub open spec fn touched(self, now: TimeStamp) -> UserModel {
        UserModel { last_seen: now, ..self }
    }

    /// The visitor after being placed in `room`. The room counter stops at its
    /// largest value instead of wrapping.
    pub open spec fn placed(self, room: Seq<char>) -> UserModel {
        UserModel {
            room_id: Some(room),
            chat_ctr: if self.chat_ctr < u64::MAX {
                (self.chat_ctr + 1) as u64
            } else {
                self.chat_ctr
            },
            ..self
        }
    }

    /// The visitor after leaving its room.
    pub open spec fn released(self) -> UserModel {
        UserModel { room_id: None, ..self }
    }
}

impl UserState {
    /// A visitor first seen right now, in no room.
    pub fn new(id: UserId) -> (user: UserState)
        ensures
            exists|now: TimeStamp| user@ == UserModel::fresh(id@, now),
    {
        let now = get_timestamp();
        let user = UserState::new_at(id, now);
        assert(user@ == UserModel::fresh(id@, now));
        user
    }

    /// A visitor first seen at `now`, in no room.
    pub fn new_at(id: UserId, now: TimeStamp) -> (user: UserState)
        ensures
            user@ == UserModel::fresh(id@, now),
    {
        UserState { first_seen: now, last_seen: now, chat_ctr: 0, room_id: None, id: id }
    }
}

} // verus!

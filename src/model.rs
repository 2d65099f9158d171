use vstd::prelude::*;

verus! {

/// Identifier of a stored record: the twelve bytes of a document id read as one integer.
#[derive(Clone, Copy, Debug, PartialEq, Eq, Structural)]
pub struct ObjectId {
    pub value: u128,
}

impl ObjectId {
    /// The zero identifier, which no stored record is expected to carry.
    pub fn zero() -> (r: ObjectId)
        ensures
            r.value == 0,
    {
        ObjectId { value: 0 }
    }
}

/// The two kinds of reaction a user can leave on a voice note.
#[derive(Clone, Copy, Debug, PartialEq, Eq, Structural)]
pub enum ReactionType {
    SpeakUp,
    ShutUp,
}

/// One user's reaction to a voice note.
#[derive(Clone, Copy, Debug, PartialEq, Eq, Structural)]
pub struct Reaction {
    pub user_id: ObjectId,
    pub reaction: ReactionType,
}

/// A registered account.
pub struct Users {
    pub _id: ObjectId,
    pub username: String,
    pub password: String,
    pub name: String,
    pub description: String,
    pub followers: Vec<ObjectId>,
    pub following: Vec<ObjectId>,
    pub voice_notes: Vec<ObjectId>,
}

pub struct UserView {
    pub id: ObjectId,
    pub username: Seq<char>,
    pub password: Seq<char>,
    pub name: Seq<char>,
    pub description: Seq<char>,
    pub followers: Seq<ObjectId>,
    pub following: Seq<ObjectId>,
    pub voice_notes: Seq<ObjectId>,
}

impl View for Users {
    type V = UserView;

    open spec fn view(&self) -> UserView {
        UserView {
            id: self._id,
            username: self.username@,
            password: self.password@,
            name: self.name@,
            description: self.description@,
            followers: self.followers@,
            following: self.following@,
            voice_notes: self.voice_notes@,
        }
    }
}

/// A stored audio clip: a top-level post when `is_post`, else a reply.
/// `timestamp` is in seconds since the Unix epoch, UTC.
pub struct VoiceNote {
    pub _id: ObjectId,
    pub user_id: ObjectId,
    pub name: String,
    pub is_post: bool,
    pub data: Vec<i16>,
    pub replies: Vec<ObjectId>,
    pub reactions: Vec<Reaction>,
    pub timestamp: i64,
}

pub struct NoteView {
    pub id: ObjectId,
    pub author: ObjectId,
    pub name: Seq<char>,
    pub is_post: bool,
    pub data: Seq<i16>,
    pub replies: Seq<ObjectId>,
    pub reactions: Seq<Reaction>,
    pub timestamp: i64,
}

impl View for VoiceNote {
    type V = NoteView;

    open spec fn view(&self) -> NoteView {
        NoteView {
            id: self._id,
            author: self.user_id,
            name: self.name@,
            is_post: self.is_post,
            data: self.data@,
            replies: self.replies@,
            reactions: self.reactions@,
            timestamp: self.timestamp,
        }
    }
}

/// A user as others see it: no password, and a position `refNo` within one listing.
#[allow(non_camel_case_types, non_snake_case)]
pub struct publicUser {
    pub refNo: i32,
    pub _id: ObjectId,
    pub username: String,
    pub name: String,
    pub description: String,
    pub followers: Vec<ObjectId>,
    pub following: Vec<ObjectId>,
    pub voice_notes: Vec<ObjectId>,
}

pub struct PublicView {
    pub ref_no: i32,
    pub id: ObjectId,
    pub username: Seq<char>,
    pub name: Seq<char>,
    pub description: Seq<char>,
    pub followers: Seq<ObjectId>,
    pub following: Seq<ObjectId>,
    pub voice_notes: Seq<ObjectId>,
}

impl View for publicUser {
    type V = PublicView;

    open spec fn view(&self) -> PublicView {
        PublicView {
            ref_no: self.refNo,
            id: self._id,
            username: self.username@,
            name: self.name@,
            description: self.description@,
            followers: self.followers@,
            following: self.following@,
            voice_notes: self.voice_notes@,
        }
    }
}

/// The projection of a user into a listing at position `ref_no`.
pub open spec fn public_of(u: UserView, ref_no: i32) -> PublicView {
    PublicView {
        ref_no,
        id: u.id,
        username: u.username,
        name: u.name,
        description: u.description,
        followers: u.followers,
        following: u.following,
        voice_notes: u.voice_notes,
    }
}

/// One reply of a conversation: its id and its author's id and name.
#[allow(non_camel_case_types)]
pub struct replies {
    pub _id: ObjectId,
    pub user_id: (ObjectId, String),
}

pub struct ReplyView {
    pub id: ObjectId,
    pub author: ObjectId,
    pub author_name: Seq<char>,
}

impl View for replies {
    type V = ReplyView;

    open spec fn view(&self) -> ReplyView {
        ReplyView { id: self._id, author: self.user_id.0, author_name: self.user_id.1@ }
    }
}

/// The summary of a stored reply.
pub open spec fn summary_of(n: NoteView) -> ReplyView {
    ReplyView { id: n.id, author: n.author, author_name: n.name }
}

/// A post with its reactions and the summaries of its direct replies.
#[allow(non_camel_case_types)]
pub struct conversation {
    pub v_id: ObjectId,
    pub v_user_id: ObjectId,
    pub reactions: Vec<Reaction>,
    pub replies: Vec<replies>,
}

pub struct ConversationView {
    pub v_id: ObjectId,
    pub v_user_id: ObjectId,
    pub reactions: Seq<Reaction>,
    pub replies: Seq<ReplyView>,
}

impl View for conversation {
    type V = ConversationView;

    open spec fn view(&self) -> ConversationView {
        ConversationView {
            v_id: self.v_id,
            v_user_id: self.v_user_id,
            reactions: self.reactions@,
            replies: self.replies@.map_values(|r: replies| r@),
        }
    }
}

/// Why a store operation did not take effect.
#[derive(Clone, Copy, Debug, PartialEq, Eq, Structural)]
pub enum SocialError {
    /// A record that the operation needs does not exist.
    NotFound,
    /// A record with the same username or id already exists.
    Conflict,
}

/// Copies a sequence of plain values.
pub fn copy_vec<T: Copy>(v: &Vec<T>) -> (r: Vec<T>)
    ensures
        r@ == v@,
{
    let mut r: Vec<T> = Vec::new();
    let mut i: usize = 0;
    while i < v.len()
        invariant
            i <= v@.len(),
            r@ == v@.subrange(0, i as int),
        decreases v@.len() - i,
    {
        r.push(v[i]);
        i += 1;
    }
    assert(r@ =~= v@);
    r
}

impl Users {
    /// A field-by-field copy.
    pub fn copy(&self) -> (r: Users)
        ensures
            r@ == self@,
    {
        Users {
            _id: self._id,
            username: self.username.clone(),
            password: self.password.clone(),
            name: self.name.clone(),
            description: self.description.clone(),
            followers: copy_vec(&self.followers),
            following: copy_vec(&self.following),
            voice_notes: copy_vec(&self.voice_notes),
        }
    }

    /// The projection of this user into a listing at position `ref_no`.
    pub fn to_public(&self, ref_no: i32) -> (r: publicUser)
        ensures
            r@ == public_of(self@, ref_no),
    {
        publicUser {
            refNo: ref_no,
            _id: self._id,
            username: self.username.clone(),
            name: self.name.clone(),
            description: self.description.clone(),
            followers: copy_vec(&self.followers),
            following: copy_vec(&self.following),
            voice_notes: copy_vec(&self.voice_notes),
        }
    }
}

impl VoiceNote {
    /// A field-by-field copy.
    pub fn copy(&self) -> (r: VoiceNote)
        ensures
            r@ == self@,
    {
        VoiceNote {
            _id: self._id,
            user_id: self.user_id,
            name: self.name.clone(),
            is_post: self.is_post,
            data: copy_vec(&self.data),
            replies: copy_vec(&self.replies),
            reactions: copy_vec(&self.reactions),
            timestamp: self.timestamp,
        }
    }
}

} // verus!

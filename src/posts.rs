use vstd::prelude::*;
use crate::model::{
    conversation, copy_vec, replies, summary_of, ConversationView, NoteView,
    ObjectId, ReplyView, SocialError, VoiceNote,
};
use crate::store::{Network, NetworkView, NoteEdit, UserEdit};
use crate::social::{lemma_edit_user_wf, lemma_note_at, lemma_push_reply_wf, lemma_user_at};

verus! {

/// A fresh note by `author`, with the author's current name, no replies and no reactions.
pub open spec fn new_note(v: NetworkView, id: ObjectId, author: ObjectId, is_post: bool, data: Seq<i16>, timestamp: i64) -> NoteView {
    NoteView {
        id,
        author,
        name: v.user(author).name,
        is_post,
        data,
        replies: Seq::empty(),
        reactions: Seq::empty(),
        timestamp,
    }
}

/// `v` with one more note.
pub open spec fn with_note(v: NetworkView, n: NoteView) -> NetworkView {
    NetworkView { users: v.users, notes: v.notes.push(n) }
}

/// Stores a note built from the account `user_id`.
fn insert_note_by(net: &mut Network, user_id: ObjectId, note_id: ObjectId, is_post: bool, data: Vec<i16>, timestamp: i64) -> (r: Result<(), SocialError>)
    requires
        old(net)@.wf(),
    ensures
        final(net)@.wf(),
        r == (if !old(net)@.has_user(user_id) {
            Err::<(), SocialError>(SocialError::NotFound)
        } else if old(net)@.has_note(note_id) {
            Err(SocialError::Conflict)
        } else {
            Ok(())
        }),
        r is Err ==> *final(net) == *old(net),
        r is Ok ==> final(net)@ == with_note(old(net)@, new_note(old(net)@, note_id, user_id, is_post, data@, timestamp)),
{
    let i = match net.find_user(user_id) {
        Some(i) => i,
        None => {
            return Err(SocialError::NotFound);
        },
    };
    proof { lemma_user_at(net@, i as int, user_id); }
    let note = VoiceNote {
        _id: note_id,
        user_id,
        name: net.users[i].name.clone(),
        is_post,
        data,
        replies: Vec::new(),
        reactions: Vec::new(),
        timestamp,
    };
    note.insert_one(net)
}

/// Stores a top-level post of `user_id` and appends its id to the author's notes.
/// Fails with `NotFound` when there is no such account, and with `Conflict`
/// when the id `voice_id` is taken.
pub fn create_post(net: &mut Network, user_id: ObjectId, data: Vec<i16>, voice_id: ObjectId, timestamp: i64) -> (r: Result<(), SocialError>)
    requires
        old(net)@.wf(),
    ensures
        final(net)@.wf(),
        r == (if !old(net)@.has_user(user_id) {
            Err::<(), SocialError>(SocialError::NotFound)
        } else if old(net)@.has_note(voice_id) {
            Err(SocialError::Conflict)
        } else {
            Ok(())
        }),
        r is Err ==> *final(net) == *old(net),
        r is Ok ==> final(net)@ == with_note(old(net)@, new_note(old(net)@, voice_id, user_id, true, data@, timestamp)).edit_user(
            user_id, UserEdit::PushVoiceNote(voice_id)),
{
    let r = insert_note_by(net, user_id, voice_id, true, data, timestamp);
    if r.is_ok() {
        save_voice_note(net, user_id, voice_id);
    }
    r
}

/// Appends `v_id` to the notes of the account `userid`.
pub fn save_voice_note(net: &mut Network, userid: ObjectId, v_id: ObjectId)
    requires
        old(net)@.wf(),
    ensures
        final(net)@.wf(),
        final(net)@ == old(net)@.edit_user(userid, UserEdit::PushVoiceNote(v_id)),
{
    let e = UserEdit::PushVoiceNote(v_id);
    proof { lemma_edit_user_wf(net@, userid, e); }
    net.update_user(userid, &e);
}

/// Stores a reply of `user_id` to the note `voice_id` and appends it to that
/// note's replies. The reply is not listed among the author's notes. Fails as
/// `create_post` does.
pub fn create_comment(net: &mut Network, user_id: ObjectId, voice_id: ObjectId, comment_id: ObjectId, data: Vec<i16>, timestamp: i64) -> (r: Result<(), SocialError>)
    requires
        old(net)@.wf(),
    ensures
        final(net)@.wf(),
        r == (if !old(net)@.has_user(user_id) {
            Err::<(), SocialError>(SocialError::NotFound)
        } else if old(net)@.has_note(comment_id) {
            Err(SocialError::Conflict)
        } else {
            Ok(())
        }),
        r is Err ==> *final(net) == *old(net),
        r is Ok ==> final(net)@ == with_note(old(net)@, new_note(old(net)@, comment_id, user_id, false, data@, timestamp)).edit_note(
            voice_id, NoteEdit::PushReply(comment_id)),
{
    let r = insert_note_by(net, user_id, comment_id, false, data, timestamp);
    if r.is_ok() {
        add_reply(net, voice_id, comment_id);
    }
    r
}

/// Appends `comment_id` to the replies of the note `voice_id`.
pub fn add_reply(net: &mut Network, voice_id: ObjectId, comment_id: ObjectId)
    requires
        old(net)@.wf(),
    ensures
        final(net)@.wf(),
        final(net)@ == old(net)@.edit_note(voice_id, NoteEdit::PushReply(comment_id)),
{
    proof { lemma_push_reply_wf(net@, voice_id, comment_id); }
    net.update_note(voice_id, &NoteEdit::PushReply(comment_id));
}

/// The state after deleting the note `id`: the note is gone and its id is
/// pulled from the notes of `user_id`. Replies lists that name it keep it.
pub open spec fn delete_spec(v: NetworkView, id: ObjectId, user_id: ObjectId) -> NetworkView {
    let notes = if v.has_note(id) { v.notes.remove(v.note_index(id)) } else { v.notes };
    NetworkView { users: v.users, notes }.edit_user(user_id, UserEdit::PullVoiceNote(id))
}

/// Deletes the note `voice_note_id` and pulls its id from the notes of `user_id`.
pub fn delete_post(net: &mut Network, voice_note_id: ObjectId, user_id: ObjectId)
    requires
        old(net)@.wf(),
    ensures
        final(net)@.wf(),
        final(net)@ == delete_spec(old(net)@, voice_note_id, user_id),
{
    let ghost pre = net@;
    match net.find_note(voice_note_id) {
        Some(i) => {
            proof { lemma_note_at(net@, i as int, voice_note_id); }
            let _gone = net.notes.remove(i);
            proof {
                pre.notes.remove_ensures(i as int);
                assert(net@.notes =~= pre.notes.remove(i as int));
                assert(net@.users =~= pre.users);
            }
        },
        None => {},
    }
    let e = UserEdit::PullVoiceNote(voice_note_id);
    proof { lemma_edit_user_wf(net@, user_id, e); }
    net.update_user(user_id, &e);
}

/// The author's id and name recorded on the note `v_id`.
pub fn get_user_of_vn(net: &Network, v_id: ObjectId) -> (r: Option<(ObjectId, String)>)
    requires
        net@.wf(),
    ensures
        r is Some == net@.has_note(v_id),
        r is Some ==> r.unwrap().0 == net@.note(v_id).author && r.unwrap().1@ == net@.note(v_id).name,
{
    match net.find_note(v_id) {
        Some(i) => {
            proof { lemma_note_at(net@, i as int, v_id); }
            Some((net.notes[i].user_id, net.notes[i].name.clone()))
        },
        None => None,
    }
}

/// The samples to render for the note `v_id`: its own, or none when it does not exist.
pub fn download_voice_notes(net: &Network, v_id: ObjectId) -> (r: Vec<i16>)
    requires
        net@.wf(),
    ensures
        r@ == (if net@.has_note(v_id) { net@.note(v_id).data } else { Seq::empty() }),
{
    match net.find_note(v_id) {
        Some(i) => {
            proof { lemma_note_at(net@, i as int, v_id); }
            copy_vec(&net.notes[i].data)
        },
        None => Vec::new(),
    }
}

/// The summaries of the replies that `ids` name, in order; ids of no note are skipped.
pub open spec fn reply_summaries(v: NetworkView, ids: Seq<ObjectId>) -> Seq<ReplyView>
    decreases ids.len(),
{
    if ids.len() == 0 {
        Seq::empty()
    } else {
        let rest = reply_summaries(v, ids.drop_last());
        if v.has_note(ids.last()) {
            rest.push(summary_of(v.note(ids.last())))
        } else {
            rest
        }
    }
}

/// The conversation of the note `id`: one level of replies. For a missing
/// note, the conversation with zero ids and nothing in it.
pub open spec fn conversation_of(v: NetworkView, id: ObjectId) -> ConversationView {
    if v.has_note(id) {
        ConversationView {
            v_id: v.note(id).id,
            v_user_id: v.note(id).author,
            reactions: v.note(id).reactions,
            replies: reply_summaries(v, v.note(id).replies),
        }
    } else {
        ConversationView {
            v_id: ObjectId { value: 0 },
            v_user_id: ObjectId { value: 0 },
            reactions: Seq::empty(),
            replies: Seq::empty(),
        }
    }
}

/// Assembles the conversation of the note `v_id`.
pub fn create_conversation(net: &Network, v_id: ObjectId) -> (r: conversation)
    requires
        net@.wf(),
    ensures
        r@ == conversation_of(net@, v_id),
{
    let p = match net.find_note(v_id) {
        Some(p) => p,
        None => {
            let r = conversation {
                v_id: ObjectId::zero(),
                v_user_id: ObjectId::zero(),
                reactions: Vec::new(),
                replies: Vec::new(),
            };
            assert(r@.replies =~= Seq::<ReplyView>::empty());
            return r;
        },
    };
    proof { lemma_note_at(net@, p as int, v_id); }
    let ids = &net.notes[p].replies;
    let mut con_replies: Vec<replies> = Vec::new();
    let mut i: usize = 0;
    while i < ids.len()
        invariant
            net@.wf(),
            i <= ids@.len(),
            con_replies@.map_values(|r: replies| r@) == reply_summaries(net@, ids@.subrange(0, i as int)),
        decreases ids@.len() - i,
    {
        assert(ids@.subrange(0, i + 1).drop_last() =~= ids@.subrange(0, i as int));
        let item = ids[i];
        let ghost before = con_replies@;
        match get_user_of_vn(net, item) {
            Some(author) => {
                con_replies.push(replies { _id: item, user_id: author });
                assert(con_replies@.map_values(|r: replies| r@) =~= before.map_values(|r: replies| r@).push(
                    summary_of(net@.note(item))));
            },
            None => {},
        }
        i += 1;
    }
    assert(ids@.subrange(0, ids@.len() as int) =~= ids@);
    conversation {
        v_id: net.notes[p]._id,
        v_user_id: net.notes[p].user_id,
        reactions: copy_vec(&net.notes[p].reactions),
        replies: con_replies,
    }
}

} // verus!

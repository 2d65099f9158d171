use vstd::prelude::*;
use crate::model::{
    publicUser, public_of, ObjectId, Reaction, ReactionType, SocialError, UserView, Users, VoiceNote,
};
use crate::store::{
    apply_note_edit, apply_user_edit, reactions_unique, user_in, Network, NetworkView, NoteEdit, UserEdit,
};
use crate::listing::{followers_ids, get_all_followers_profile, listing_fits, profile_listing};

verus! {

/// In a well-formed network the account with a given id sits at one position.
pub proof fn lemma_user_at(v: NetworkView, i: int, id: ObjectId)
    requires
        v.wf(),
        0 <= i < v.users.len(),
        v.users[i].id == id,
    ensures
        v.has_user(id),
        v.user_index(id) == i,
        v.user(id) == v.users[i],
{
}

/// In a well-formed network the account with a given username sits at one position.
pub proof fn lemma_username_at(v: NetworkView, i: int, name: Seq<char>)
    requires
        v.wf(),
        0 <= i < v.users.len(),
        v.users[i].username == name,
    ensures
        v.has_username(name),
        v.username_index(name) == i,
{
}

/// In a well-formed network the note with a given id sits at one position.
pub proof fn lemma_note_at(v: NetworkView, i: int, id: ObjectId)
    requires
        v.wf(),
        0 <= i < v.notes.len(),
        v.notes[i].id == id,
    ensures
        v.has_note(id),
        v.note_index(id) == i,
        v.note(id) == v.notes[i],
{
}

/// An edit of accounts keeps every id and username, so well-formedness too.
pub proof fn lemma_edit_user_wf(v: NetworkView, id: ObjectId, e: UserEdit)
    requires
        v.wf(),
    ensures
        v.edit_user(id, e).wf(),
        v.edit_user(id, e).users.len() == v.users.len(),
        forall|i: int|
            0 <= i < v.users.len() ==> (#[trigger] v.edit_user(id, e).users[i]).id == v.users[i].id
                && v.edit_user(id, e).users[i].username == v.users[i].username,
{
    let w = v.edit_user(id, e);
    assert forall|i: int| 0 <= i < v.users.len() implies (#[trigger] w.users[i]).id
        == v.users[i].id && w.users[i].username == v.users[i].username by {
        let u = v.users[i];
        if u.id == id {
            assert(w.users[i] == apply_user_edit(u, e));
        }
    }
}

/// An edit of accounts by username keeps every id and username.
pub proof fn lemma_edit_username_wf(v: NetworkView, name: Seq<char>, e: UserEdit)
    requires
        v.wf(),
    ensures
        v.edit_username(name, e).wf(),
{
    let w = v.edit_username(name, e);
    assert forall|i: int| 0 <= i < v.users.len() implies (#[trigger] w.users[i]).id
        == v.users[i].id && w.users[i].username == v.users[i].username by {
        let u = v.users[i];
        if u.username == name {
            assert(w.users[i] == apply_user_edit(u, e));
        }
    }
}

/// Appending a reply keeps the network well formed.
pub proof fn lemma_push_reply_wf(v: NetworkView, id: ObjectId, x: ObjectId)
    requires
        v.wf(),
    ensures
        v.edit_note(id, NoteEdit::PushReply(x)).wf(),
{
    let w = v.edit_note(id, NoteEdit::PushReply(x));
    assert forall|i: int| 0 <= i < v.notes.len() implies (#[trigger] w.notes[i]).id
        == v.notes[i].id && w.notes[i].reactions == v.notes[i].reactions by {
        if v.notes[i].id == id {
            assert(w.notes[i] == apply_note_edit(v.notes[i], NoteEdit::PushReply(x)));
        }
    }
}

/// Overwriting a user's reaction, or appending one where the user has none,
/// keeps at most one reaction per user on every note.
pub proof fn lemma_react_wf(v: NetworkView, id: ObjectId, r: Reaction)
    requires
        v.wf(),
    ensures
        v.edit_note(id, NoteEdit::SetReaction(r)).wf(),
        !v.has_reaction(id, r.user_id) ==> v.edit_note(id, NoteEdit::PushReaction(r)).wf(),
{
    let w = v.edit_note(id, NoteEdit::SetReaction(r));
    assert forall|i: int| 0 <= i < v.notes.len() implies (#[trigger] w.notes[i]).id
        == v.notes[i].id && reactions_unique(w.notes[i].reactions) by {
        let rs = v.notes[i].reactions;
        if v.notes[i].id == id {
            let ws = w.notes[i].reactions;
            assert(ws =~= rs.map_values(|x: Reaction| if x.user_id == r.user_id { r } else { x }));
            assert forall|j: int, k: int| 0 <= j < ws.len() && 0 <= k < ws.len() && j != k implies #[trigger] ws[j].user_id
                != #[trigger] ws[k].user_id by {
                assert(rs[j].user_id != rs[k].user_id);
            }
        }
    }
    if !v.has_reaction(id, r.user_id) {
        let p = v.edit_note(id, NoteEdit::PushReaction(r));
        assert forall|i: int| 0 <= i < v.notes.len() implies (#[trigger] p.notes[i]).id
            == v.notes[i].id && reactions_unique(p.notes[i].reactions) by {
            let rs = v.notes[i].reactions;
            if v.notes[i].id == id {
                let ps = p.notes[i].reactions;
                assert(ps == rs.push(r));
                assert forall|j: int, k: int| 0 <= j < ps.len() && 0 <= k < ps.len() && j != k implies #[trigger] ps[j].user_id
                    != #[trigger] ps[k].user_id by {
                    if j < rs.len() && k < rs.len() {
                        assert(rs[j].user_id != rs[k].user_id);
                    } else if j == rs.len() {
                        assert(v.notes[i].reactions[k].user_id != r.user_id);
                    } else {
                        assert(v.notes[i].reactions[j].user_id != r.user_id);
                    }
                }
            }
        }
    }
}

impl Users {
    /// Stores this account, unless its username or its id is taken.
    pub fn insert_one(self, net: &mut Network) -> (r: Result<(), SocialError>)
        requires
            old(net)@.wf(),
        ensures
            final(net)@.wf(),
            r == (if old(net)@.has_username(self@.username) || old(net)@.has_user(self@.id) {
                Err::<(), SocialError>(SocialError::Conflict)
            } else {
                Ok(())
            }),
            r is Err ==> *final(net) == *old(net),
            r is Ok ==> final(net)@.users == old(net)@.users.push(self@) && final(net)@.notes == old(net)@.notes,
    {
        if net.find_username(&self.username).is_some() || net.find_user(self._id).is_some() {
            return Err(SocialError::Conflict);
        }
        let ghost pre = net@;
        let ghost u = self@;
        proof {
            assert forall|i: int| 0 <= i < pre.users.len() implies pre.users[i].id != u.id
                && pre.users[i].username != u.username by {
                if pre.users[i].id == u.id {
                    assert(pre.has_user(u.id));
                }
                if pre.users[i].username == u.username {
                    assert(user_in(pre.users, u.username));
                }
            }
        }
        net.users.push(self);
        assert(net@.users =~= pre.users.push(u));
        assert(net@.notes =~= pre.notes);
        Ok(())
    }
}

impl VoiceNote {
    /// Stores this note, unless its id is taken. A new note carries at most
    /// one reaction per user.
    pub fn insert_one(self, net: &mut Network) -> (r: Result<(), SocialError>)
        requires
            old(net)@.wf(),
            reactions_unique(self@.reactions),
        ensures
            final(net)@.wf(),
            r == (if old(net)@.has_note(self@.id) {
                Err::<(), SocialError>(SocialError::Conflict)
            } else {
                Ok(())
            }),
            r is Err ==> *final(net) == *old(net),
            r is Ok ==> final(net)@.notes == old(net)@.notes.push(self@) && final(net)@.users == old(net)@.users,
    {
        if net.find_note(self._id).is_some() {
            return Err(SocialError::Conflict);
        }
        let ghost pre = net@;
        let ghost n = self@;
        proof {
            assert forall|i: int| 0 <= i < pre.notes.len() implies pre.notes[i].id != n.id by {
                if pre.notes[i].id == n.id {
                    assert(pre.has_note(n.id));
                }
            }
        }
        net.notes.push(self);
        assert(net@.notes =~= pre.notes.push(n));
        assert(net@.users =~= pre.users);
        Ok(())
    }
}

/// Registers an account with an empty description and no edges or notes.
/// Fails with `Conflict` when the username or the id is taken.
pub fn create_user(net: &mut Network, user_id: ObjectId, username: String, password: String, name: String) -> (r: Result<ObjectId, SocialError>)
    requires
        old(net)@.wf(),
    ensures
        final(net)@.wf(),
        r is Err <==> (old(net)@.has_username(username@) || old(net)@.has_user(user_id)),
        r is Err ==> r == Err::<ObjectId, SocialError>(SocialError::Conflict) && *final(net) == *old(net),
        r is Ok ==> r == Ok::<ObjectId, SocialError>(user_id) && final(net)@.notes == old(net)@.notes
            && final(net)@.users == old(net)@.users.push(
            UserView {
                id: user_id,
                username: username@,
                password: password@,
                name: name@,
                description: Seq::empty(),
                followers: Seq::empty(),
                following: Seq::empty(),
                voice_notes: Seq::empty(),
            },
        ),
{
    let new_user = Users {
        _id: user_id,
        username,
        password,
        name,
        description: String::new(),
        followers: Vec::new(),
        following: Vec::new(),
        voice_notes: Vec::new(),
    };
    match new_user.insert_one(net) {
        Ok(()) => Ok(user_id),
        Err(e) => Err(e),
    }
}

/// The account with this username, when the password matches it.
pub fn get_user_by_username(net: &Network, username: &String, password: &String) -> (r: Option<Users>)
    requires
        net@.wf(),
    ensures
        r is Some <==> (net@.has_username(username@) && net@.users[net@.username_index(username@)].password == password@),
        r is Some ==> r.unwrap()@ == net@.users[net@.username_index(username@)],
{
    match net.find_username(username) {
        Some(i) => {
            proof { lemma_username_at(net@, i as int, username@); }
            if net.users[i].password == *password {
                Some(net.users[i].copy())
            } else {
                None
            }
        },
        None => None,
    }
}

/// Sets the display name of the account with this username; tells whether there was one.
pub fn update_user_name_by_username(net: &mut Network, username: &String, new_name: &String) -> (found: bool)
    requires
        old(net)@.wf(),
    ensures
        final(net)@.wf(),
        found == old(net)@.has_username(username@),
        final(net)@ == old(net)@.edit_username(username@, UserEdit::SetName(*new_name)),
{
    let e = UserEdit::SetName(new_name.clone());
    proof { lemma_edit_username_wf(net@, username@, e); }
    net.update_username(username, &e)
}

/// Sets the password of the account with this username; tells whether there was one.
pub fn update_password_by_username(net: &mut Network, username: &String, new_password: &String) -> (found: bool)
    requires
        old(net)@.wf(),
    ensures
        final(net)@.wf(),
        found == old(net)@.has_username(username@),
        final(net)@ == old(net)@.edit_username(username@, UserEdit::SetPassword(*new_password)),
{
    let e = UserEdit::SetPassword(new_password.clone());
    proof { lemma_edit_username_wf(net@, username@, e); }
    net.update_username(username, &e)
}

/// Sets the description of the account with this username; tells whether there was one.
pub fn update_description_by_username(net: &mut Network, username: &String, new_desc: &String) -> (found: bool)
    requires
        old(net)@.wf(),
    ensures
        final(net)@.wf(),
        found == old(net)@.has_username(username@),
        final(net)@ == old(net)@.edit_username(username@, UserEdit::SetDescription(*new_desc)),
{
    let e = UserEdit::SetDescription(new_desc.clone());
    proof { lemma_edit_username_wf(net@, username@, e); }
    net.update_username(username, &e)
}

/// The state after `user_id` follows `fuser_id`: the target is appended to the
/// follower's `following`, then the follower to the target's `followers`.
pub open spec fn follow_spec(v: NetworkView, user_id: ObjectId, fuser_id: ObjectId) -> NetworkView {
    v.edit_user(user_id, UserEdit::PushFollowing(fuser_id)).edit_user(fuser_id, UserEdit::PushFollowers(user_id))
}

/// The state after `user_id` stops following `fuser_id`: each id is pulled from the other's array.
pub open spec fn unfollow_spec(v: NetworkView, user_id: ObjectId, fuser_id: ObjectId) -> NetworkView {
    v.edit_user(user_id, UserEdit::PullFollowing(fuser_id)).edit_user(fuser_id, UserEdit::PullFollowers(user_id))
}

/// Records that `user_id` follows `fuser_id`, on both accounts. Nothing stops a
/// second call from appending the same ids again.
pub fn follow(net: &mut Network, user_id: ObjectId, fuser_id: ObjectId)
    requires
        old(net)@.wf(),
    ensures
        final(net)@.wf(),
        final(net)@ == follow_spec(old(net)@, user_id, fuser_id),
{
    let e1 = UserEdit::PushFollowing(fuser_id);
    proof { lemma_edit_user_wf(net@, user_id, e1); }
    net.update_user(user_id, &e1);
    let e2 = UserEdit::PushFollowers(user_id);
    proof { lemma_edit_user_wf(net@, fuser_id, e2); }
    net.update_user(fuser_id, &e2);
}

/// Removes the edge from `user_id` to `fuser_id` on both accounts. Removing
/// an edge that does not exist changes nothing.
pub fn unfollow_edges(net: &mut Network, user_id: ObjectId, fuser_id: ObjectId)
    requires
        old(net)@.wf(),
    ensures
        final(net)@.wf(),
        final(net)@ == unfollow_spec(old(net)@, user_id, fuser_id),
{
    let e1 = UserEdit::PullFollowing(fuser_id);
    proof { lemma_edit_user_wf(net@, user_id, e1); }
    net.update_user(user_id, &e1);
    let e2 = UserEdit::PullFollowers(user_id);
    proof { lemma_edit_user_wf(net@, fuser_id, e2); }
    net.update_user(fuser_id, &e2);
}

/// Removes the edge from `user_id` to `fuser_id` on both accounts, then lists
/// the followers of `user_id`.
pub fn unfollow(net: &mut Network, user_id: ObjectId, fuser_id: ObjectId) -> (r: Vec<publicUser>)
    requires
        old(net)@.wf(),
        listing_fits(followers_ids(unfollow_spec(old(net)@, user_id, fuser_id), user_id)),
    ensures
        final(net)@.wf(),
        final(net)@ == unfollow_spec(old(net)@, user_id, fuser_id),
        r@.len() == profile_listing(final(net)@, followers_ids(final(net)@, user_id), user_id).len(),
        forall|k: int| 0 <= k < r@.len() ==> #[trigger] r@[k]@ == public_of(
            profile_listing(final(net)@, followers_ids(final(net)@, user_id), user_id)[k], k as i32),
{
    unfollow_edges(net, user_id, fuser_id);
    get_all_followers_profile(net, user_id)
}

/// The state after `user_id` drops its follower `follower_id`.
pub open spec fn remove_follower_spec(v: NetworkView, user_id: ObjectId, follower_id: ObjectId) -> NetworkView {
    v.edit_user(user_id, UserEdit::PullFollowers(follower_id)).edit_user(follower_id, UserEdit::PullFollowing(user_id))
}

/// Removes the edge from `follower_id` to `user_id` on both accounts.
pub fn remove_follower_edges(net: &mut Network, user_id: ObjectId, follower_id: ObjectId)
    requires
        old(net)@.wf(),
    ensures
        final(net)@.wf(),
        final(net)@ == remove_follower_spec(old(net)@, user_id, follower_id),
{
    let e1 = UserEdit::PullFollowers(follower_id);
    proof { lemma_edit_user_wf(net@, user_id, e1); }
    net.update_user(user_id, &e1);
    let e2 = UserEdit::PullFollowing(user_id);
    proof { lemma_edit_user_wf(net@, follower_id, e2); }
    net.update_user(follower_id, &e2);
}

/// Removes the edge from `follower_id` to `user_id` on both accounts, then
/// lists the followers of `user_id`.
pub fn remove_follower(net: &mut Network, user_id: ObjectId, follower_id: ObjectId) -> (r: Vec<publicUser>)
    requires
        old(net)@.wf(),
        listing_fits(followers_ids(remove_follower_spec(old(net)@, user_id, follower_id), user_id)),
    ensures
        final(net)@.wf(),
        final(net)@ == remove_follower_spec(old(net)@, user_id, follower_id),
        r@.len() == profile_listing(final(net)@, followers_ids(final(net)@, user_id), user_id).len(),
        forall|k: int| 0 <= k < r@.len() ==> #[trigger] r@[k]@ == public_of(
            profile_listing(final(net)@, followers_ids(final(net)@, user_id), user_id)[k], k as i32),
{
    remove_follower_edges(net, user_id, follower_id);
    get_all_followers_profile(net, user_id)
}

/// The state after user `user_id` reacts with `reaction` to note `v_id`: the
/// user's reaction there is overwritten if it exists, else appended.
pub open spec fn react_spec(v: NetworkView, v_id: ObjectId, user_id: ObjectId, reaction: ReactionType) -> NetworkView {
    let r = Reaction { user_id, reaction };
    if v.has_reaction(v_id, user_id) {
        v.edit_note(v_id, NoteEdit::SetReaction(r))
    } else {
        v.edit_note(v_id, NoteEdit::PushReaction(r))
    }
}

/// Overwrites the reaction of `r.user_id` on note `v_id`; tells whether one was there.
fn replace_reaction(net: &mut Network, v_id: ObjectId, r: Reaction) -> (modified: bool)
    ensures
        modified == old(net)@.has_reaction(v_id, r.user_id),
        modified ==> final(net)@ == old(net)@.edit_note(v_id, NoteEdit::SetReaction(r)),
        !modified ==> *final(net) == *old(net),
{
    let mut found = false;
    let mut i: usize = 0;
    while i < net.notes.len()
        invariant
            i <= net.notes@.len(),
            found == exists|a: int, k: int|
                0 <= a < i && #[trigger] net@.notes[a].id == v_id && 0 <= k
                    < net@.notes[a].reactions.len() && #[trigger] net@.notes[a].reactions[k].user_id
                    == r.user_id,
        decreases net.notes@.len() - i,
    {
        if net.notes[i]._id == v_id {
            let mut k: usize = 0;
            while k < net.notes[i].reactions.len()
                invariant
                    i < net.notes@.len(),
                    k <= net.notes@[i as int].reactions@.len(),
                    net.notes@[i as int]._id == v_id,
                    found ==> exists|a: int, k: int|
                        0 <= a <= i && #[trigger] net@.notes[a].id == v_id && 0 <= k
                            < net@.notes[a].reactions.len() && #[trigger] net@.notes[a].reactions[k].user_id
                            == r.user_id,
                    !found ==> forall|a: int, k: int|
                        0 <= a < i && #[trigger] net@.notes[a].id == v_id && 0 <= k
                            < net@.notes[a].reactions.len() ==> #[trigger] net@.notes[a].reactions[k].user_id
                            != r.user_id,
                    !found ==> forall|j: int| 0 <= j < k ==> #[trigger] net@.notes[i as int].reactions[j].user_id != r.user_id,
                decreases net.notes@[i as int].reactions@.len() - k,
            {
                if net.notes[i].reactions[k].user_id == r.user_id {
                    assert(net@.notes[i as int].id == v_id);
                    assert(net@.notes[i as int].reactions[k as int].user_id == r.user_id);
                    found = true;
                }
                k += 1;
            }
        }
        i += 1;
    }
    if found {
        net.update_note(v_id, &NoteEdit::SetReaction(r));
    }
    found
}

/// Applies user `user_id`'s reaction to note `v_id`: an existing reaction of
/// that user is overwritten, otherwise the reaction is appended.
pub fn react_to_quote(net: &mut Network, v_id: ObjectId, user_id: ObjectId, reaction: ReactionType)
    requires
        old(net)@.wf(),
    ensures
        final(net)@.wf(),
        final(net)@ == react_spec(old(net)@, v_id, user_id, reaction),
{
    let r = Reaction { user_id, reaction };
    proof { lemma_react_wf(net@, v_id, r); }
    let modified = replace_reaction(net, v_id, r);
    if !modified {
        net.update_note(v_id, &NoteEdit::PushReaction(r));
    }
}

} // verus!

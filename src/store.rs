use vstd::prelude::*;
use vstd::pervasive::VecAdditionalExecFns;
use crate::model::{NoteView, ObjectId, Reaction, UserView, Users, VoiceNote};

verus! {

/// The two document collections: accounts and voice notes.
pub struct Network {
    pub users: Vec<Users>,
    pub notes: Vec<VoiceNote>,
}

pub struct NetworkView {
    pub users: Seq<UserView>,
    pub notes: Seq<NoteView>,
}

impl View for Network {
    type V = NetworkView;

    open spec fn view(&self) -> NetworkView {
        NetworkView {
            users: self.users@.map_values(|u: Users| u@),
            notes: self.notes@.map_values(|n: VoiceNote| n@),
        }
    }
}

/// A single-field update of an account document.
pub enum UserEdit {
    PushFollowing(ObjectId),
    PushFollowers(ObjectId),
    PullFollowing(ObjectId),
    PullFollowers(ObjectId),
    PushVoiceNote(ObjectId),
    PullVoiceNote(ObjectId),
    SetName(String),
    SetPassword(String),
    SetDescription(String),
}

/// A single-field update of a voice note document.
pub enum NoteEdit {
    PushReply(ObjectId),
    PushReaction(Reaction),
    /// Overwrite the reaction of the same user.
    SetReaction(Reaction),
}

/// `s` with every occurrence of `x` taken out.
pub open spec fn without(s: Seq<ObjectId>, x: ObjectId) -> Seq<ObjectId>
    decreases s.len(),
{
    if s.len() == 0 {
        s
    } else if s.last() == x {
        without(s.drop_last(), x)
    } else {
        without(s.drop_last(), x).push(s.last())
    }
}

pub open spec fn apply_user_edit(u: UserView, e: UserEdit) -> UserView {
    match e {
        UserEdit::PushFollowing(x) => UserView { following: u.following.push(x), ..u },
        UserEdit::PushFollowers(x) => UserView { followers: u.followers.push(x), ..u },
        UserEdit::PullFollowing(x) => UserView { following: without(u.following, x), ..u },
        UserEdit::PullFollowers(x) => UserView { followers: without(u.followers, x), ..u },
        UserEdit::PushVoiceNote(x) => UserView { voice_notes: u.voice_notes.push(x), ..u },
        UserEdit::PullVoiceNote(x) => UserView { voice_notes: without(u.voice_notes, x), ..u },
        UserEdit::SetName(s) => UserView { name: s@, ..u },
        UserEdit::SetPassword(s) => UserView { password: s@, ..u },
        UserEdit::SetDescription(s) => UserView { description: s@, ..u },
    }
}

pub open spec fn apply_note_edit(n: NoteView, e: NoteEdit) -> NoteView {
    match e {
        NoteEdit::PushReply(x) => NoteView { replies: n.replies.push(x), ..n },
        NoteEdit::PushReaction(r) => NoteView { reactions: n.reactions.push(r), ..n },
        NoteEdit::SetReaction(r) => NoteView {
            reactions: n.reactions.map_values(
                |x: Reaction| if x.user_id == r.user_id { r } else { x },
            ),
            ..n
        },
    }
}

/// Whether some account in `users` has the username `name`.
pub open spec fn user_in(users: Seq<UserView>, name: Seq<char>) -> bool {
    exists|i: int| 0 <= i < users.len() && #[trigger] users[i].username == name
}

impl NetworkView {
    pub open spec fn has_user(self, id: ObjectId) -> bool {
        exists|i: int| 0 <= i < self.users.len() && #[trigger] self.users[i].id == id
    }

    pub open spec fn user_index(self, id: ObjectId) -> int {
        choose|i: int| 0 <= i < self.users.len() && #[trigger] self.users[i].id == id
    }

    pub open spec fn user(self, id: ObjectId) -> UserView {
        self.users[self.user_index(id)]
    }

    pub open spec fn has_username(self, name: Seq<char>) -> bool {
        user_in(self.users, name)
    }

    pub open spec fn username_index(self, name: Seq<char>) -> int {
        choose|i: int| 0 <= i < self.users.len() && #[trigger] self.users[i].username == name
    }

    pub open spec fn has_note(self, id: ObjectId) -> bool {
        exists|i: int| 0 <= i < self.notes.len() && #[trigger] self.notes[i].id == id
    }

    pub open spec fn note_index(self, id: ObjectId) -> int {
        choose|i: int| 0 <= i < self.notes.len() && #[trigger] self.notes[i].id == id
    }

    pub open spec fn note(self, id: ObjectId) -> NoteView {
        self.notes[self.note_index(id)]
    }

    /// Ids and usernames of accounts are unique, ids of notes are unique, and
    /// each note holds at most one reaction per user.
    pub open spec fn wf(self) -> bool {
        &&& forall|i: int, j: int|
            0 <= i < self.users.len() && 0 <= j < self.users.len() && i != j
                ==> #[trigger] self.users[i].id != #[trigger] self.users[j].id
        &&& forall|i: int, j: int|
            0 <= i < self.users.len() && 0 <= j < self.users.len() && i != j
                ==> #[trigger] self.users[i].username != #[trigger] self.users[j].username
        &&& forall|i: int, j: int|
            0 <= i < self.notes.len() && 0 <= j < self.notes.len() && i != j
                ==> #[trigger] self.notes[i].id != #[trigger] self.notes[j].id
        &&& forall|i: int| 0 <= i < self.notes.len() ==> reactions_unique(#[trigger] self.notes[i].reactions)
    }

    /// Applies `e` to every account with id `id`.
    pub open spec fn edit_user(self, id: ObjectId, e: UserEdit) -> NetworkView {
        NetworkView {
            users: self.users.map_values(
                |u: UserView| if u.id == id { apply_user_edit(u, e) } else { u },
            ),
            notes: self.notes,
        }
    }

    /// Applies `e` to every account with username `name`.
    pub open spec fn edit_username(self, name: Seq<char>, e: UserEdit) -> NetworkView {
        NetworkView {
            users: self.users.map_values(
                |u: UserView| if u.username == name { apply_user_edit(u, e) } else { u },
            ),
            notes: self.notes,
        }
    }

    /// Applies `e` to every note with id `id`.
    pub open spec fn edit_note(self, id: ObjectId, e: NoteEdit) -> NetworkView {
        NetworkView {
            users: self.users,
            notes: self.notes.map_values(
                |n: NoteView| if n.id == id { apply_note_edit(n, e) } else { n },
            ),
        }
    }

    /// Whether note `v` holds a reaction of user `u`.
    pub open spec fn has_reaction(self, v: ObjectId, u: ObjectId) -> bool {
        exists|i: int, k: int|
            0 <= i < self.notes.len() && #[trigger] self.notes[i].id == v && 0 <= k
                < self.notes[i].reactions.len() && #[trigger] self.notes[i].reactions[k].user_id
                == u
    }
}

pub open spec fn reactions_unique(rs: Seq<Reaction>) -> bool {
    forall|j: int, k: int|
        0 <= j < rs.len() && 0 <= k < rs.len() && j != k ==> #[trigger] rs[j].user_id
            != #[trigger] rs[k].user_id
}

/// Copies the ids of `s` but those equal to `x`.
pub fn pull_id(s: &Vec<ObjectId>, x: ObjectId) -> (r: Vec<ObjectId>)
    ensures
        r@ == without(s@, x),
{
    let mut r: Vec<ObjectId> = Vec::new();
    let mut i: usize = 0;
    while i < s.len()
        invariant
            i <= s@.len(),
            r@ == without(s@.subrange(0, i as int), x),
        decreases s@.len() - i,
    {
        assert(s@.subrange(0, i + 1).drop_last() =~= s@.subrange(0, i as int));
        if s[i] != x {
            r.push(s[i]);
        }
        i += 1;
    }
    assert(s@.subrange(0, s@.len() as int) =~= s@);
    r
}

fn blank_user() -> Users {
    Users {
        _id: ObjectId::zero(),
        username: String::new(),
        password: String::new(),
        name: String::new(),
        description: String::new(),
        followers: Vec::new(),
        following: Vec::new(),
        voice_notes: Vec::new(),
    }
}

fn blank_note() -> VoiceNote {
    VoiceNote {
        _id: ObjectId::zero(),
        user_id: ObjectId::zero(),
        name: String::new(),
        is_post: false,
        data: Vec::new(),
        replies: Vec::new(),
        reactions: Vec::new(),
        timestamp: 0,
    }
}

fn apply_edit_to(u: &mut Users, e: &UserEdit)
    ensures
        final(u)@ == apply_user_edit(old(u)@, *e),
{
    match e {
        UserEdit::PushFollowing(x) => u.following.push(*x),
        UserEdit::PushFollowers(x) => u.followers.push(*x),
        UserEdit::PullFollowing(x) => {
            u.following = pull_id(&u.following, *x);
        },
        UserEdit::PullFollowers(x) => {
            u.followers = pull_id(&u.followers, *x);
        },
        UserEdit::PushVoiceNote(x) => u.voice_notes.push(*x),
        UserEdit::PullVoiceNote(x) => {
            u.voice_notes = pull_id(&u.voice_notes, *x);
        },
        UserEdit::SetName(s) => {
            u.name = s.clone();
        },
        UserEdit::SetPassword(s) => {
            u.password = s.clone();
        },
        UserEdit::SetDescription(s) => {
            u.description = s.clone();
        },
    }
}

fn set_reaction_in(rs: &Vec<Reaction>, r: Reaction) -> (out: Vec<Reaction>)
    ensures
        out@ == rs@.map_values(|x: Reaction| if x.user_id == r.user_id { r } else { x }),
{
    let mut out: Vec<Reaction> = Vec::new();
    let mut i: usize = 0;
    while i < rs.len()
        invariant
            i <= rs@.len(),
            out@ == rs@.subrange(0, i as int).map_values(
                |x: Reaction| if x.user_id == r.user_id { r } else { x },
            ),
        decreases rs@.len() - i,
    {
        let x = rs[i];
        if x.user_id == r.user_id {
            out.push(r);
        } else {
            out.push(x);
        }
        i += 1;
        assert(out@ =~= rs@.subrange(0, i as int).map_values(
            |x: Reaction| if x.user_id == r.user_id { r } else { x },
        ));
    }
    assert(rs@.subrange(0, rs@.len() as int) =~= rs@);
    out
}

fn apply_note_edit_to(n: &mut VoiceNote, e: &NoteEdit)
    ensures
        final(n)@ == apply_note_edit(old(n)@, *e),
{
    match e {
        NoteEdit::PushReply(x) => n.replies.push(*x),
        NoteEdit::PushReaction(r) => n.reactions.push(*r),
        NoteEdit::SetReaction(r) => {
            n.reactions = set_reaction_in(&n.reactions, *r);
        },
    }
}

/// Whether each user has at most one reaction in `rs`.
pub fn reactions_are_unique(rs: &Vec<Reaction>) -> (r: bool)
    ensures
        r == reactions_unique(rs@),
{
    let n = rs.len();
    let mut i: usize = 0;
    while i < n
        invariant
            n == rs@.len(),
            i <= n,
            forall|a: int, b: int|
                0 <= a < i && 0 <= b < n && a != b ==> #[trigger] rs@[a].user_id != #[trigger] rs@[b].user_id,
        decreases n - i,
    {
        let mut j: usize = 0;
        while j < n
            invariant
                n == rs@.len(),
                i < n,
                j <= n,
                forall|a: int, b: int|
                    0 <= a < i && 0 <= b < n && a != b ==> #[trigger] rs@[a].user_id != #[trigger] rs@[b].user_id,
                forall|b: int| 0 <= b < j && b != i ==> rs@[i as int].user_id != #[trigger] rs@[b].user_id,
            decreases n - j,
        {
            if i != j && rs[i].user_id == rs[j].user_id {
                assert(rs@[i as int].user_id == rs@[j as int].user_id);
                return false;
            }
            j += 1;
        }
        i += 1;
    }
    true
}

impl Network {
    /// Whether ids and usernames of accounts are unique, ids of notes are
    /// unique, and no note holds two reactions of one user.
    pub fn is_well_formed(&self) -> (r: bool)
        ensures
            r == self@.wf(),
    {
        let n = self.users.len();
        let mut i: usize = 0;
        while i < n
            invariant
                n == self.users@.len(),
                i <= n,
                forall|a: int, b: int|
                    0 <= a < i && 0 <= b < n && a != b ==> #[trigger] self@.users[a].id != #[trigger] self@.users[b].id,
                forall|a: int, b: int|
                    0 <= a < i && 0 <= b < n && a != b ==> #[trigger] self@.users[a].username != #[trigger] self@.users[b].username,
            decreases n - i,
        {
            let mut j: usize = 0;
            while j < n
                invariant
                    n == self.users@.len(),
                    i < n,
                    j <= n,
                    forall|a: int, b: int|
                        0 <= a < i && 0 <= b < n && a != b ==> #[trigger] self@.users[a].id != #[trigger] self@.users[b].id,
                    forall|a: int, b: int|
                        0 <= a < i && 0 <= b < n && a != b ==> #[trigger] self@.users[a].username != #[trigger] self@.users[b].username,
                    forall|b: int| 0 <= b < j && b != i ==> self@.users[i as int].id != #[trigger] self@.users[b].id,
                    forall|b: int| 0 <= b < j && b != i ==> self@.users[i as int].username != #[trigger] self@.users[b].username,
                decreases n - j,
            {
                if i != j && (self.users[i]._id == self.users[j]._id || self.users[i].username == self.users[j].username) {
                    assert(self@.users[i as int].id == self@.users[j as int].id
                        || self@.users[i as int].username == self@.users[j as int].username);
                    return false;
                }
                j += 1;
            }
            i += 1;
        }
        let m = self.notes.len();
        let mut i: usize = 0;
        while i < m
            invariant
                n == self.users@.len(),
                m == self.notes@.len(),
                i <= m,
                forall|a: int, b: int|
                    0 <= a < n && 0 <= b < n && a != b ==> #[trigger] self@.users[a].id != #[trigger] self@.users[b].id,
                forall|a: int, b: int|
                    0 <= a < n && 0 <= b < n && a != b ==> #[trigger] self@.users[a].username != #[trigger] self@.users[b].username,
                forall|a: int, b: int|
                    0 <= a < i && 0 <= b < m && a != b ==> #[trigger] self@.notes[a].id != #[trigger] self@.notes[b].id,
                forall|a: int| 0 <= a < i ==> reactions_unique(#[trigger] self@.notes[a].reactions),
            decreases m - i,
        {
            if !reactions_are_unique(&self.notes[i].reactions) {
                assert(!reactions_unique(self@.notes[i as int].reactions));
                return false;
            }
            let mut j: usize = 0;
            while j < m
                invariant
                    m == self.notes@.len(),
                    i < m,
                    j <= m,
                    forall|a: int, b: int|
                        0 <= a < i && 0 <= b < m && a != b ==> #[trigger] self@.notes[a].id != #[trigger] self@.notes[b].id,
                    forall|b: int| 0 <= b < j && b != i ==> self@.notes[i as int].id != #[trigger] self@.notes[b].id,
                decreases m - j,
            {
                if i != j && self.notes[i]._id == self.notes[j]._id {
                    assert(self@.notes[i as int].id == self@.notes[j as int].id);
                    return false;
                }
                j += 1;
            }
            i += 1;
        }
        true
    }

    /// An empty network.
    pub fn new() -> (r: Network)
        ensures
            r@.users.len() == 0,
            r@.notes.len() == 0,
            r@.wf(),
    {
        Network { users: Vec::new(), notes: Vec::new() }
    }

    /// Applies `e` to each account whose id is `id`, or whose username is
    /// `name` when `by_name`.
    fn edit_users_where(&mut self, by_name: bool, id: ObjectId, name: &String, e: &UserEdit)
        ensures
            by_name ==> final(self)@ == old(self)@.edit_username(name@, *e),
            !by_name ==> final(self)@ == old(self)@.edit_user(id, *e),
    {
        let ghost pre = self@;
        let n = self.users.len();
        let mut i: usize = 0;
        while i < n
            invariant
                n == old(self).users@.len(),
                self.users@.len() == n,
                self.notes@ == old(self).notes@,
                pre == old(self)@,
                forall|j: int|
                    0 <= j < i ==> (#[trigger] self.users@[j])@ == (if (by_name
                        && pre.users[j].username == name@) || (!by_name && pre.users[j].id
                        == id) {
                        apply_user_edit(pre.users[j], *e)
                    } else {
                        pre.users[j]
                    }),
                forall|j: int| i <= j < n ==> (#[trigger] self.users@[j])@ == pre.users[j],
            decreases n - i,
        {
            let hit = if by_name {
                self.users[i].username == *name
            } else {
                self.users[i]._id == id
            };
            if hit {
                let mut u = blank_user();
                self.users.set_and_swap(i, &mut u);
                apply_edit_to(&mut u, e);
                self.users.set(i, u);
            }
            i += 1;
        }
        if by_name {
            assert(self@.users =~= pre.edit_username(name@, *e).users);
        } else {
            assert(self@.users =~= pre.edit_user(id, *e).users);
        }
        assert(self@.notes =~= pre.notes);
    }

    /// Applies `e` to each account with id `id`.
    pub fn update_user(&mut self, id: ObjectId, e: &UserEdit)
        ensures
            final(self)@ == old(self)@.edit_user(id, *e),
    {
        let none = String::new();
        self.edit_users_where(false, id, &none, e);
    }

    /// Applies `e` to each account with username `name`; tells whether there was one.
    pub fn update_username(&mut self, name: &String, e: &UserEdit) -> (found: bool)
        ensures
            final(self)@ == old(self)@.edit_username(name@, *e),
            found == old(self)@.has_username(name@),
    {
        let found = self.find_username(name).is_some();
        self.edit_users_where(true, ObjectId::zero(), name, e);
        found
    }

    /// Applies `e` to each note with id `id`.
    pub fn update_note(&mut self, id: ObjectId, e: &NoteEdit)
        ensures
            final(self)@ == old(self)@.edit_note(id, *e),
    {
        let ghost pre = self@;
        let n = self.notes.len();
        let mut i: usize = 0;
        while i < n
            invariant
                n == old(self).notes@.len(),
                self.notes@.len() == n,
                self.users@ == old(self).users@,
                pre == old(self)@,
                forall|j: int|
                    0 <= j < i ==> (#[trigger] self.notes@[j])@ == (if pre.notes[j].id == id {
                        apply_note_edit(pre.notes[j], *e)
                    } else {
                        pre.notes[j]
                    }),
                forall|j: int| i <= j < n ==> (#[trigger] self.notes@[j])@ == pre.notes[j],
            decreases n - i,
        {
            if self.notes[i]._id == id {
                let mut v = blank_note();
                self.notes.set_and_swap(i, &mut v);
                apply_note_edit_to(&mut v, e);
                self.notes.set(i, v);
            }
            i += 1;
        }
        assert(self@.notes =~= pre.edit_note(id, *e).notes);
        assert(self@.users =~= pre.users);
    }

    /// The position of the account with id `id`.
    pub fn find_user(&self, id: ObjectId) -> (r: Option<usize>)
        ensures
            r.is_some() == self@.has_user(id),
            r.is_some() ==> r.unwrap() < self@.users.len() && self@.users[r.unwrap() as int].id
                == id,
    {
        let mut i: usize = 0;
        while i < self.users.len()
            invariant
                i <= self.users@.len(),
                forall|j: int| 0 <= j < i ==> (#[trigger] self.users@[j])._id != id,
            decreases self.users@.len() - i,
        {
            if self.users[i]._id == id {
                assert(self@.users[i as int].id == id);
                return Some(i);
            }
            i += 1;
        }
        assert forall|j: int| 0 <= j < self@.users.len() implies #[trigger] self@.users[j].id
            != id by {
            assert(self.users@[j]._id != id);
        }
        None
    }

    /// The position of the account with username `name`.
    pub fn find_username(&self, name: &String) -> (r: Option<usize>)
        ensures
            r.is_some() == self@.has_username(name@),
            r.is_some() ==> r.unwrap() < self@.users.len() && self@.users[r.unwrap() as int].username
                == name@,
    {
        let mut i: usize = 0;
        while i < self.users.len()
            invariant
                i <= self.users@.len(),
                forall|j: int| 0 <= j < i ==> (#[trigger] self.users@[j]).username@ != name@,
            decreases self.users@.len() - i,
        {
            if self.users[i].username == *name {
                assert(self@.users[i as int].username == name@);
                return Some(i);
            }
            i += 1;
        }
        assert forall|j: int| 0 <= j < self@.users.len() implies #[trigger] self@.users[j].username
            != name@ by {
            assert(self.users@[j].username@ != name@);
        }
        None
    }

    /// The position of the note with id `id`.
    pub fn find_note(&self, id: ObjectId) -> (r: Option<usize>)
        ensures
            r.is_some() == self@.has_note(id),
            r.is_some() ==> r.unwrap() < self@.notes.len() && self@.notes[r.unwrap() as int].id
                == id,
    {
        let mut i: usize = 0;
        while i < self.notes.len()
            invariant
                i <= self.notes@.len(),
                forall|j: int| 0 <= j < i ==> (#[trigger] self.notes@[j])._id != id,
            decreases self.notes@.len() - i,
        {
            if self.notes[i]._id == id {
                assert(self@.notes[i as int].id == id);
                return Some(i);
            }
            i += 1;
        }
        assert forall|j: int| 0 <= j < self@.notes.len() implies #[trigger] self@.notes[j].id
            != id by {
            assert(self.notes@[j]._id != id);
        }
        None
    }
}

} // verus!

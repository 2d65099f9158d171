use vstd::prelude::*;
use crate::model::{summary_of, ObjectId, Reaction, ReactionType};
use crate::store::{apply_note_edit, apply_user_edit, without, NetworkView, NoteEdit, UserEdit};
use crate::social::{
    follow_spec, lemma_edit_user_wf, lemma_note_at, lemma_react_wf, lemma_user_at, react_spec,
    unfollow_spec,
};
use crate::posts::{conversation_of, reply_summaries};
use crate::feed::{feed_of, gathered_feed, posts_of, sorted_desc};
use crate::listing::following_ids;
use crate::model::NoteView;
use vstd::seq_lib::{group_to_multiset_ensures, lemma_multiset_commutative};

verus! {

/// Pulling `x` out of a sequence leaves no `x` in it.
pub proof fn lemma_without_excludes(s: Seq<ObjectId>, x: ObjectId)
    ensures
        !without(s, x).contains(x),
    decreases s.len(),
{
    if s.len() > 0 {
        lemma_without_excludes(s.drop_last(), x);
        let rest = without(s.drop_last(), x);
        if s.last() != x {
            assert forall|k: int| 0 <= k < rest.push(s.last()).len() implies rest.push(s.last())[k] != x by {
                if k < rest.len() {
                    assert(rest[k] != x);
                }
            }
        }
    }
}

/// After `a` follows `b`, where both accounts exist, `b` is among those `a`
/// follows and `a` among the followers of `b`.
pub proof fn follow_links_both_ways(v: NetworkView, a: ObjectId, b: ObjectId)
    requires
        v.wf(),
        v.has_user(a),
        v.has_user(b),
    ensures
        follow_spec(v, a, b).wf(),
        follow_spec(v, a, b).user(a).following.contains(b),
        follow_spec(v, a, b).user(b).followers.contains(a),
{
    let i = v.user_index(a);
    let j = v.user_index(b);
    let e1 = UserEdit::PushFollowing(b);
    let e2 = UserEdit::PushFollowers(a);
    let v1 = v.edit_user(a, e1);
    lemma_edit_user_wf(v, a, e1);
    let v2 = v1.edit_user(b, e2);
    lemma_edit_user_wf(v1, b, e2);
    lemma_user_at(v2, i, a);
    lemma_user_at(v2, j, b);
    assert(v1.users[i] == apply_user_edit(v.users[i], e1));
    let fi = v1.users[i].following;
    assert(fi[fi.len() - 1] == b);
    if v1.users[i].id == b {
        assert(v2.users[i] == apply_user_edit(v1.users[i], e2));
    }
    assert(v2.users[i].following == fi);
    assert(v2.users[j] == apply_user_edit(v1.users[j], e2));
    let fj = v2.users[j].followers;
    assert(fj[fj.len() - 1] == a);
}

/// After `a` unfollows `b`, neither id stands in the other's array.
pub proof fn unfollow_clears_both_ways(v: NetworkView, a: ObjectId, b: ObjectId)
    requires
        v.wf(),
        v.has_user(a),
        v.has_user(b),
    ensures
        unfollow_spec(v, a, b).wf(),
        !unfollow_spec(v, a, b).user(a).following.contains(b),
        !unfollow_spec(v, a, b).user(b).followers.contains(a),
{
    let i = v.user_index(a);
    let j = v.user_index(b);
    let e1 = UserEdit::PullFollowing(b);
    let e2 = UserEdit::PullFollowers(a);
    let v1 = v.edit_user(a, e1);
    lemma_edit_user_wf(v, a, e1);
    let v2 = v1.edit_user(b, e2);
    lemma_edit_user_wf(v1, b, e2);
    lemma_user_at(v2, i, a);
    lemma_user_at(v2, j, b);
    assert(v1.users[i] == apply_user_edit(v.users[i], e1));
    lemma_without_excludes(v.users[i].following, b);
    if v1.users[i].id == b {
        assert(v2.users[i] == apply_user_edit(v1.users[i], e2));
    }
    assert(v2.users[i].following == v1.users[i].following);
    assert(v2.users[j] == apply_user_edit(v1.users[j], e2));
    lemma_without_excludes(v1.users[j].followers, a);
}

/// Following and then unfollowing leaves neither id in the other's array.
pub proof fn follow_then_unfollow_clears(v: NetworkView, a: ObjectId, b: ObjectId)
    requires
        v.wf(),
        v.has_user(a),
        v.has_user(b),
    ensures
        !unfollow_spec(follow_spec(v, a, b), a, b).user(a).following.contains(b),
        !unfollow_spec(follow_spec(v, a, b), a, b).user(b).followers.contains(a),
{
    follow_links_both_ways(v, a, b);
    let w = follow_spec(v, a, b);
    let v1 = v.edit_user(a, UserEdit::PushFollowing(b));
    lemma_edit_user_wf(v, a, UserEdit::PushFollowing(b));
    lemma_edit_user_wf(v1, b, UserEdit::PushFollowers(a));
    let i = v.user_index(a);
    let j = v.user_index(b);
    assert(w.users[i].id == a);
    assert(w.users[j].id == b);
    unfollow_clears_both_ways(w, a, b);
}

/// After user `u` reacts to an existing note `p` with `k1` and then with `k2`,
/// the note holds exactly one reaction of `u`, and it is `k2`.
pub proof fn second_reaction_replaces_first(
    v: NetworkView,
    p: ObjectId,
    u: ObjectId,
    k1: ReactionType,
    k2: ReactionType,
)
    requires
        v.wf(),
        v.has_note(p),
    ensures
        ({
            let rs = react_spec(react_spec(v, p, u, k1), p, u, k2).note(p).reactions;
            exists|k: int|
                0 <= k < rs.len() && rs[k] == (Reaction { user_id: u, reaction: k2 }) && forall|j: int|
                    0 <= j < rs.len() && j != k ==> #[trigger] rs[j].user_id != u
        }),
{
    let t = v.note_index(p);
    let r1 = Reaction { user_id: u, reaction: k1 };
    let r2 = Reaction { user_id: u, reaction: k2 };
    lemma_react_wf(v, p, r1);
    let v1 = react_spec(v, p, u, k1);
    let rs0 = v.notes[t].reactions;
    let k = if v.has_reaction(p, u) {
        let (i0, k0) = choose|i0: int, k0: int|
            0 <= i0 < v.notes.len() && #[trigger] v.notes[i0].id == p && 0 <= k0
                < v.notes[i0].reactions.len() && #[trigger] v.notes[i0].reactions[k0].user_id == u;
        assert(i0 == t);
        let e = NoteEdit::SetReaction(r1);
        assert(v1.notes[t] == apply_note_edit(v.notes[t], e));
        k0
    } else {
        let e = NoteEdit::PushReaction(r1);
        assert(v1.notes[t] == apply_note_edit(v.notes[t], e));
        rs0.len() as int
    };
    let rs1 = v1.notes[t].reactions;
    assert(v1.notes[t].id == p);
    assert(rs1[k] == r1);
    assert(0 <= k < v1.notes[t].reactions.len());
    assert(v1.notes[t].reactions[k].user_id == u);
    assert(v1.has_reaction(p, u));
    lemma_react_wf(v1, p, r2);
    let v2 = react_spec(v1, p, u, k2);
    assert(v2.notes[t] == apply_note_edit(v1.notes[t], NoteEdit::SetReaction(r2)));
    lemma_note_at(v2, t, p);
    let rs2 = v2.notes[t].reactions;
    assert(rs2[k] == r2);
    assert forall|j: int| 0 <= j < rs2.len() && j != k implies #[trigger] rs2[j].user_id != u by {
        assert(rs1[j].user_id != rs1[k].user_id);
    }
}

/// Summaries of ids that all name stored notes stand one for one, in order.
pub proof fn lemma_summaries_in_order(v: NetworkView, ids: Seq<ObjectId>)
    requires
        forall|k: int| 0 <= k < ids.len() ==> v.has_note(#[trigger] ids[k]),
    ensures
        reply_summaries(v, ids).len() == ids.len(),
        forall|k: int| 0 <= k < ids.len() ==> #[trigger] reply_summaries(v, ids)[k] == summary_of(v.note(ids[k])),
    decreases ids.len(),
{
    if ids.len() > 0 {
        let rest = ids.drop_last();
        assert forall|k: int| 0 <= k < rest.len() implies v.has_note(#[trigger] rest[k]) by {
            assert(rest[k] == ids[k]);
        }
        lemma_summaries_in_order(v, rest);
        assert(v.has_note(ids[ids.len() - 1]));
        assert forall|k: int| 0 <= k < ids.len() implies #[trigger] reply_summaries(v, ids)[k] == summary_of(
            v.note(ids[k])) by {
            if k < rest.len() {
                assert(rest[k] == ids[k]);
            }
        }
    }
}

/// The conversation of a stored post whose replies are all stored lists one
/// summary per reply, in the order the post keeps them.
pub proof fn conversation_keeps_reply_order(v: NetworkView, p: ObjectId)
    requires
        v.wf(),
        v.has_note(p),
        forall|k: int| 0 <= k < v.note(p).replies.len() ==> v.has_note(#[trigger] v.note(p).replies[k]),
    ensures
        conversation_of(v, p).replies.len() == v.note(p).replies.len(),
        forall|k: int|
            0 <= k < v.note(p).replies.len() ==> #[trigger] conversation_of(v, p).replies[k] == summary_of(
                v.note(v.note(p).replies[k])),
{
    lemma_summaries_in_order(v, v.note(p).replies);
}

/// Newest-first order is fixed by the notes alone when their timestamps all
/// differ: two such orderings of the same notes are the same sequence. So the
/// feed does not depend on the order in which its posts were stored.
pub proof fn newest_first_order_is_unique(s: Seq<NoteView>, t: Seq<NoteView>)
    requires
        sorted_desc(s),
        sorted_desc(t),
        s.to_multiset() == t.to_multiset(),
        forall|i: int, j: int| 0 <= i < j < s.len() ==> #[trigger] s[i].timestamp != #[trigger] s[j].timestamp,
    ensures
        s == t,
    decreases s.len(),
{
    broadcast use group_to_multiset_ensures;

    s.to_multiset_ensures();
    t.to_multiset_ensures();
    assert(s.len() == t.len());
    if s.len() == 0 {
        assert(s =~= t);
    } else {
        assert(s.contains(s[0]));
        assert(t.to_multiset().count(s[0]) > 0);
        assert(t.contains(s[0]));
        let k = choose|k: int| 0 <= k < t.len() && t[k] == s[0];
        assert(t.contains(t[0]));
        assert(s.to_multiset().count(t[0]) > 0);
        assert(s.contains(t[0]));
        let m = choose|m: int| 0 <= m < s.len() && s[m] == t[0];
        if m != 0 {
            assert(s[0].timestamp >= s[m].timestamp);
            if k != 0 {
                assert(t[0].timestamp >= t[k].timestamp);
            }
            assert(s[0].timestamp != s[m].timestamp);
        }
        assert(s[0] == t[0]);
        let s1 = s.drop_first();
        let t1 = t.drop_first();
        assert(s.remove(0) =~= s1);
        assert(t.remove(0) =~= t1);
        assert(s1.to_multiset() =~= t1.to_multiset());
        assert forall|i: int, j: int| 0 <= i < j < s1.len() implies #[trigger] s1[i].timestamp
            != #[trigger] s1[j].timestamp by {
            assert(s[i + 1].timestamp != s[j + 1].timestamp);
        }
        assert forall|i: int, j: int| 0 <= i < j < s1.len() implies #[trigger] s1[i].timestamp
            >= #[trigger] s1[j].timestamp by {
            assert(s[i + 1].timestamp >= s[j + 1].timestamp);
        }
        assert forall|i: int, j: int| 0 <= i < j < t1.len() implies #[trigger] t1[i].timestamp
            >= #[trigger] t1[j].timestamp by {
            assert(t[i + 1].timestamp >= t[j + 1].timestamp);
        }
        newest_first_order_is_unique(s1, t1);
        assert forall|i: int| 0 <= i < s.len() implies s[i] == t[i] by {
            if i > 0 {
                assert(s[i] == s1[i - 1]);
                assert(t[i] == t1[i - 1]);
            }
        }
        assert(s =~= t);
    }
}

/// The notes that `g` gives for each id of `ids`, one id after another.
pub open spec fn concat_map(ids: Seq<ObjectId>, g: spec_fn(ObjectId) -> Seq<NoteView>) -> Seq<NoteView>
    decreases ids.len(),
{
    if ids.len() == 0 {
        Seq::empty()
    } else {
        concat_map(ids.drop_last(), g) + g(ids.last())
    }
}

/// The note `k`, when it is a stored top-level post.
pub open spec fn post_at(v: NetworkView, k: ObjectId) -> Seq<NoteView> {
    if v.has_note(k) && v.note(k).is_post {
        seq![v.note(k)]
    } else {
        Seq::empty()
    }
}

/// The stored top-level posts that the account `f` lists, in its order.
pub open spec fn posts_by(v: NetworkView, f: ObjectId) -> Seq<NoteView> {
    if v.has_user(f) {
        posts_of(v, v.user(f).voice_notes)
    } else {
        Seq::empty()
    }
}

pub proof fn lemma_posts_of_concat(v: NetworkView, ks: Seq<ObjectId>, g: spec_fn(ObjectId) -> Seq<NoteView>)
    requires
        forall|k: ObjectId| #[trigger] g(k) == post_at(v, k),
    ensures
        posts_of(v, ks) == concat_map(ks, g),
    decreases ks.len(),
{
    if ks.len() == 0 {
        assert(posts_of(v, ks) =~= concat_map(ks, g));
    } else {
        lemma_posts_of_concat(v, ks.drop_last(), g);
        assert(posts_of(v, ks) =~= concat_map(ks, g));
    }
}

pub proof fn lemma_feed_of_concat(v: NetworkView, fs: Seq<ObjectId>, h: spec_fn(ObjectId) -> Seq<NoteView>)
    requires
        forall|f: ObjectId| #[trigger] h(f) == posts_by(v, f),
    ensures
        feed_of(v, fs) == concat_map(fs, h),
    decreases fs.len(),
{
    if fs.len() == 0 {
        assert(feed_of(v, fs) =~= concat_map(fs, h));
    } else {
        lemma_feed_of_concat(v, fs.drop_last(), h);
        assert(feed_of(v, fs) =~= concat_map(fs, h));
    }
}

/// Taking one id out of the list takes its notes out of the gathered notes.
pub proof fn lemma_concat_remove(ids: Seq<ObjectId>, g: spec_fn(ObjectId) -> Seq<NoteView>, k: int)
    requires
        0 <= k < ids.len(),
    ensures
        concat_map(ids, g).to_multiset() == concat_map(ids.remove(k), g).to_multiset().add(g(ids[k]).to_multiset()),
    decreases ids.len(),
{
    let d = ids.drop_last();
    lemma_multiset_commutative(concat_map(d, g), g(ids.last()));
    if k == ids.len() - 1 {
        assert(ids.remove(k) =~= d);
    } else {
        let r = ids.remove(k);
        assert(r.drop_last() =~= d.remove(k));
        assert(r.last() == ids.last());
        lemma_concat_remove(d, g, k);
        lemma_multiset_commutative(concat_map(r.drop_last(), g), g(r.last()));
        assert(concat_map(ids, g).to_multiset() =~= concat_map(r, g).to_multiset().add(g(ids[k]).to_multiset()));
    }
}

/// The gathered notes depend on which ids are listed, not on their order.
pub proof fn lemma_concat_perm(a: Seq<ObjectId>, b: Seq<ObjectId>, g: spec_fn(ObjectId) -> Seq<NoteView>)
    requires
        a.to_multiset() == b.to_multiset(),
    ensures
        concat_map(a, g).to_multiset() == concat_map(b, g).to_multiset(),
    decreases a.len(),
{
    broadcast use group_to_multiset_ensures;

    a.to_multiset_ensures();
    b.to_multiset_ensures();
    if a.len() == 0 {
        assert(b.len() == 0);
        assert(a =~= b);
    } else {
        let x = a.last();
        let d = a.drop_last();
        assert(d.push(x) =~= a);
        d.to_multiset_ensures();
        assert(a.to_multiset() == d.to_multiset().insert(x));
        assert(b.to_multiset().count(x) > 0);
        assert(b.contains(x));
        let k = choose|k: int| 0 <= k < b.len() && b[k] == x;
        assert(b.remove(k).to_multiset() =~= d.to_multiset());
        lemma_concat_perm(d, b.remove(k), g);
        lemma_concat_remove(b, g, k);
        lemma_multiset_commutative(concat_map(d, g), g(x));
    }
}

/// Per-id contributions that agree as multisets give gathered notes that agree as multisets.
pub proof fn lemma_concat_pointwise(
    ids: Seq<ObjectId>,
    g1: spec_fn(ObjectId) -> Seq<NoteView>,
    g2: spec_fn(ObjectId) -> Seq<NoteView>,
)
    requires
        forall|x: ObjectId| #[trigger] g1(x).to_multiset() == g2(x).to_multiset(),
    ensures
        concat_map(ids, g1).to_multiset() == concat_map(ids, g2).to_multiset(),
    decreases ids.len(),
{
    if ids.len() > 0 {
        lemma_concat_pointwise(ids.drop_last(), g1, g2);
        lemma_multiset_commutative(concat_map(ids.drop_last(), g1), g1(ids.last()));
        lemma_multiset_commutative(concat_map(ids.drop_last(), g2), g2(ids.last()));
    }
}

/// The feed does not depend on the order of the stored lists. Take two
/// networks with the same notes and the same accounts, where the reader's
/// `following` list and each account's `voice_notes` list may be reordered.
/// Two newest-first results of the feed over them, with timestamps that all
/// differ, are the same sequence.
pub proof fn feed_independent_of_list_order(
    v1: NetworkView,
    v2: NetworkView,
    u: ObjectId,
    r1: Seq<NoteView>,
    r2: Seq<NoteView>,
)
    requires
        v1.notes == v2.notes,
        following_ids(v1, u).to_multiset() == following_ids(v2, u).to_multiset(),
        forall|f: ObjectId| #[trigger] v1.has_user(f) == v2.has_user(f),
        forall|f: ObjectId|
            v1.has_user(f) ==> (#[trigger] v1.user(f)).voice_notes.to_multiset() == v2.user(f).voice_notes.to_multiset(),
        r1.to_multiset() == gathered_feed(v1, u).to_multiset(),
        r2.to_multiset() == gathered_feed(v2, u).to_multiset(),
        sorted_desc(r1),
        sorted_desc(r2),
        forall|i: int, j: int| 0 <= i < j < r1.len() ==> #[trigger] r1[i].timestamp != #[trigger] r1[j].timestamp,
    ensures
        r1 == r2,
{
    let g1 = |k: ObjectId| post_at(v1, k);
    let g2 = |k: ObjectId| post_at(v2, k);
    let h1 = |f: ObjectId| posts_by(v1, f);
    let h2 = |f: ObjectId| posts_by(v2, f);
    assert forall|k: ObjectId| #[trigger] g1(k) == g2(k) by {
        assert(v1.has_note(k) == v2.has_note(k));
    }
    assert forall|f: ObjectId| #[trigger] h1(f).to_multiset() == h2(f).to_multiset() by {
        if v1.has_user(f) {
            let a = v1.user(f).voice_notes;
            let b = v2.user(f).voice_notes;
            lemma_posts_of_concat(v1, a, g1);
            lemma_posts_of_concat(v2, b, g2);
            lemma_concat_pointwise(a, g1, g2);
            lemma_concat_perm(a, b, g2);
        }
    }
    let fs1 = following_ids(v1, u);
    let fs2 = following_ids(v2, u);
    lemma_feed_of_concat(v1, fs1, h1);
    lemma_feed_of_concat(v2, fs2, h2);
    lemma_concat_pointwise(fs1, h1, h2);
    lemma_concat_perm(fs1, fs2, h2);
    newest_first_order_is_unique(r1, r2);
}

/// Pulling a value that is not there leaves the sequence as it is.
pub proof fn lemma_without_absent(s: Seq<ObjectId>, x: ObjectId)
    requires
        !s.contains(x),
    ensures
        without(s, x) == s,
    decreases s.len(),
{
    if s.len() > 0 {
        let d = s.drop_last();
        assert(!d.contains(x)) by {
            if d.contains(x) {
                let k = choose|k: int| 0 <= k < d.len() && d[k] == x;
                assert(s[k] == x);
            }
        }
        lemma_without_absent(d, x);
        assert(s[s.len() - 1] != x);
        assert(d.push(s.last()) =~= s);
    }
}

/// Removing a follow edge that is not there, on either side, changes nothing.
pub proof fn unfollow_absent_edge_is_no_op(v: NetworkView, a: ObjectId, b: ObjectId)
    requires
        v.wf(),
        v.has_user(a),
        v.has_user(b),
        !v.user(a).following.contains(b),
        !v.user(b).followers.contains(a),
    ensures
        unfollow_spec(v, a, b) == v,
{
    let e1 = UserEdit::PullFollowing(b);
    let e2 = UserEdit::PullFollowers(a);
    let v1 = v.edit_user(a, e1);
    lemma_without_absent(v.user(a).following, b);
    lemma_without_absent(v.user(b).followers, a);
    assert forall|i: int| 0 <= i < v.users.len() implies #[trigger] v1.users[i] == v.users[i] by {
        if v.users[i].id == a {
            lemma_user_at(v, i, a);
            assert(apply_user_edit(v.users[i], e1) =~= v.users[i]);
        }
    }
    assert(v1.users =~= v.users);
    assert(v1 == v);
    let v2 = v1.edit_user(b, e2);
    assert forall|i: int| 0 <= i < v.users.len() implies #[trigger] v2.users[i] == v.users[i] by {
        if v.users[i].id == b {
            lemma_user_at(v, i, b);
            assert(apply_user_edit(v.users[i], e2) =~= v.users[i]);
        }
    }
    assert(v2.users =~= v.users);
}

} // verus!

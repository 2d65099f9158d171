use vstd::prelude::*;
use vstd::seq_lib::group_to_multiset_ensures;
use crate::model::{NoteView, ObjectId, VoiceNote};
use crate::store::{Network, NetworkView};
use crate::listing::{following_ids, get_all_following};
use crate::social::{lemma_note_at, lemma_user_at};

verus! {

/// The views of a sequence of notes.
pub open spec fn views(s: Seq<VoiceNote>) -> Seq<NoteView> {
    s.map_values(|n: VoiceNote| n@)
}

/// Newest first: no note is older than one after it.
pub open spec fn sorted_desc(s: Seq<NoteView>) -> bool {
    forall|i: int, j: int| 0 <= i < j < s.len() ==> #[trigger] s[i].timestamp >= #[trigger] s[j].timestamp
}

/// The stored top-level posts that `ks` name, in order.
pub open spec fn posts_of(v: NetworkView, ks: Seq<ObjectId>) -> Seq<NoteView>
    decreases ks.len(),
{
    if ks.len() == 0 {
        Seq::empty()
    } else {
        let rest = posts_of(v, ks.drop_last());
        let k = ks.last();
        if v.has_note(k) && v.note(k).is_post {
            rest.push(v.note(k))
        } else {
            rest
        }
    }
}

/// The posts of the accounts that `fs` name, account by account.
pub open spec fn feed_of(v: NetworkView, fs: Seq<ObjectId>) -> Seq<NoteView>
    decreases fs.len(),
{
    if fs.len() == 0 {
        Seq::empty()
    } else {
        let rest = feed_of(v, fs.drop_last());
        if v.has_user(fs.last()) {
            rest + posts_of(v, v.user(fs.last()).voice_notes)
        } else {
            rest
        }
    }
}

/// The posts that make up the feed of `me`, before ordering.
pub open spec fn gathered_feed(v: NetworkView, me: ObjectId) -> Seq<NoteView> {
    feed_of(v, following_ids(v, me))
}

/// What `posts_of` gathers are top-level posts only.
pub proof fn lemma_posts_of_are_posts(v: NetworkView, ks: Seq<ObjectId>)
    ensures
        forall|k: int| 0 <= k < posts_of(v, ks).len() ==> (#[trigger] posts_of(v, ks)[k]).is_post,
    decreases ks.len(),
{
    if ks.len() > 0 {
        lemma_posts_of_are_posts(v, ks.drop_last());
        let rest = posts_of(v, ks.drop_last());
        assert forall|k: int| 0 <= k < posts_of(v, ks).len() implies (#[trigger] posts_of(v, ks)[k]).is_post by {
            if k < rest.len() {
                assert(rest[k].is_post);
            }
        }
    }
}

/// No reply ever enters a feed: what `feed_of` gathers are top-level posts only.
pub proof fn lemma_feed_of_are_posts(v: NetworkView, fs: Seq<ObjectId>)
    ensures
        forall|k: int| 0 <= k < feed_of(v, fs).len() ==> (#[trigger] feed_of(v, fs)[k]).is_post,
    decreases fs.len(),
{
    if fs.len() > 0 {
        lemma_feed_of_are_posts(v, fs.drop_last());
        let a = feed_of(v, fs.drop_last());
        let b = posts_of(v, v.user(fs.last()).voice_notes);
        lemma_posts_of_are_posts(v, v.user(fs.last()).voice_notes);
        assert forall|k: int| 0 <= k < feed_of(v, fs).len() implies (#[trigger] feed_of(v, fs)[k]).is_post by {
            if v.has_user(fs.last()) {
                assert(feed_of(v, fs) == a + b);
                if k >= a.len() {
                    assert((a + b)[k] == b[k - a.len()]);
                } else {
                    assert((a + b)[k] == a[k]);
                }
            } else {
                assert(a[k].is_post);
            }
        }
    }
}

/// Orders `notes` newest first, keeping the same notes. The order of notes
/// with equal timestamps is not promised.
pub fn sort_voice_notes_by_timestamp_desc(notes: &mut Vec<VoiceNote>)
    ensures
        views(final(notes)@).to_multiset() == views(old(notes)@).to_multiset(),
        sorted_desc(views(final(notes)@)),
{
    broadcast use group_to_multiset_ensures;

    let mut rest: Vec<VoiceNote> = Vec::new();
    std::mem::swap(notes, &mut rest);
    assert(views(notes@) =~= Seq::<NoteView>::empty());
    while rest.len() > 0
        invariant
            views(notes@).to_multiset().add(views(rest@).to_multiset()) == views(old(notes)@).to_multiset(),
            sorted_desc(views(notes@)),
            forall|a: int, b: int|
                0 <= a < notes@.len() && 0 <= b < rest@.len() ==> #[trigger] notes@[a].timestamp
                    >= #[trigger] rest@[b].timestamp,
        decreases rest@.len(),
    {
        let mut m: usize = 0;
        let mut k: usize = 1;
        while k < rest.len()
            invariant
                1 <= k <= rest@.len(),
                m < rest@.len(),
                forall|b: int| 0 <= b < k ==> rest@[m as int].timestamp >= #[trigger] rest@[b].timestamp,
            decreases rest@.len() - k,
        {
            if rest[k].timestamp > rest[m].timestamp {
                m = k;
            }
            k += 1;
        }
        let ghost old_notes = notes@;
        let ghost old_rest = rest@;
        let x = rest.remove(m);
        notes.push(x);
        proof {
            assert(views(rest@) =~= views(old_rest).remove(m as int));
            assert(views(notes@) =~= views(old_notes).push(x@));
            assert(views(old_rest)[m as int] == x@);
            views(old_rest).to_multiset_ensures();
            views(old_notes).to_multiset_ensures();
            assert(views(old_rest).contains(x@));
            assert(views(old_rest).to_multiset().count(x@) > 0);
            assert(views(notes@).to_multiset().add(views(rest@).to_multiset()) =~= views(old_notes).to_multiset().add(
                views(old_rest).to_multiset()));
            assert forall|i: int, j: int| 0 <= i < j < views(notes@).len() implies #[trigger] views(notes@)[i].timestamp
                >= #[trigger] views(notes@)[j].timestamp by {
                if j == old_notes.len() {
                    assert(old_notes[i].timestamp >= old_rest[m as int].timestamp);
                } else {
                    assert(views(old_notes)[i].timestamp >= views(old_notes)[j].timestamp);
                }
            }
            assert forall|a: int, b: int|
                0 <= a < notes@.len() && 0 <= b < rest@.len() implies #[trigger] notes@[a].timestamp
                    >= #[trigger] rest@[b].timestamp by {
                let ob = if b < m { b } else { b + 1 };
                assert(rest@[b] == old_rest[ob]);
                if a < old_notes.len() {
                    assert(old_notes[a].timestamp >= old_rest[ob].timestamp);
                }
            }
        }
    }
    assert(views(rest@).to_multiset() =~= vstd::multiset::Multiset::empty());
    assert(views(notes@).to_multiset() =~= views(notes@).to_multiset().add(views(rest@).to_multiset()));
}

/// The feed of `user_id`: the top-level posts of every account it follows,
/// newest first. Replies never appear in it.
pub fn get_all_voice_ids_from_following(net: &Network, user_id: ObjectId) -> (r: Vec<VoiceNote>)
    requires
        net@.wf(),
    ensures
        views(r@).to_multiset() == gathered_feed(net@, user_id).to_multiset(),
        sorted_desc(views(r@)),
        forall|k: int| 0 <= k < r@.len() ==> (#[trigger] r@[k]).is_post,
{
    broadcast use group_to_multiset_ensures;

    let following = get_all_following(net, user_id);
    let mut voice_ids: Vec<VoiceNote> = Vec::new();
    let mut i: usize = 0;
    while i < following.len()
        invariant
            net@.wf(),
            i <= following@.len(),
            views(voice_ids@) == feed_of(net@, following@.subrange(0, i as int)),
        decreases following@.len() - i,
    {
        assert(following@.subrange(0, i + 1).drop_last() =~= following@.subrange(0, i as int));
        let f = following[i];
        match net.find_user(f) {
            Some(j) => {
                proof { lemma_user_at(net@, j as int, f); }
                let ghost base = views(voice_ids@);
                let ks = &net.users[j].voice_notes;
                let mut q: usize = 0;
                assert(base + posts_of(net@, ks@.subrange(0, 0)) =~= base);
                while q < ks.len()
                    invariant
                        net@.wf(),
                        q <= ks@.len(),
                        views(voice_ids@) == base + posts_of(net@, ks@.subrange(0, q as int)),
                    decreases ks@.len() - q,
                {
                    assert(ks@.subrange(0, q + 1).drop_last() =~= ks@.subrange(0, q as int));
                    let ghost before = voice_ids@;
                    match net.find_note(ks[q]) {
                        Some(t) => {
                            proof { lemma_note_at(net@, t as int, ks@[q as int]); }
                            if net.notes[t].is_post {
                                voice_ids.push(net.notes[t].copy());
                                assert(views(voice_ids@) =~= views(before).push(net@.notes[t as int]));
                            }
                        },
                        None => {},
                    }
                    q += 1;
                }
                assert(ks@.subrange(0, ks@.len() as int) =~= ks@);
            },
            None => {},
        }
        i += 1;
    }
    assert(following@.subrange(0, following@.len() as int) =~= following@);
    let ghost gathered = views(voice_ids@);
    sort_voice_notes_by_timestamp_desc(&mut voice_ids);
    proof {
        lemma_feed_of_are_posts(net@, following@);
        assert forall|k: int| 0 <= k < voice_ids@.len() implies (#[trigger] voice_ids@[k]).is_post by {
            let x = views(voice_ids@)[k];
            assert(views(voice_ids@).contains(x));
            assert(gathered.to_multiset().count(x) > 0);
            assert(gathered.contains(x));
        }
    }
    voice_ids
}

} // verus!

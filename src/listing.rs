use vstd::prelude::*;
use crate::model::{copy_vec, publicUser, public_of, ObjectId, PublicView, UserView};
use crate::store::{Network, NetworkView};
use crate::social::lemma_user_at;

verus! {

/// Whom `me` follows, as its own record lists them.
pub open spec fn following_ids(v: NetworkView, me: ObjectId) -> Seq<ObjectId> {
    if v.has_user(me) {
        v.user(me).following
    } else {
        Seq::empty()
    }
}

/// Who follows `me`, as its own record lists them.
pub open spec fn followers_ids(v: NetworkView, me: ObjectId) -> Seq<ObjectId> {
    if v.has_user(me) {
        v.user(me).followers
    } else {
        Seq::empty()
    }
}

/// A listing numbers its entries with an `i32`.
pub open spec fn listing_fits(ids: Seq<ObjectId>) -> bool {
    ids.len() <= i32::MAX
}

/// The accounts that `ids` name, in order, but `me` and ids of no account.
pub open spec fn profile_listing(v: NetworkView, ids: Seq<ObjectId>, me: ObjectId) -> Seq<UserView>
    decreases ids.len(),
{
    if ids.len() == 0 {
        Seq::empty()
    } else {
        let rest = profile_listing(v, ids.drop_last(), me);
        let x = ids.last();
        if v.has_user(x) && x != me {
            rest.push(v.user(x))
        } else {
            rest
        }
    }
}

/// The ids that the account `user_id` follows.
pub fn get_all_following(net: &Network, user_id: ObjectId) -> (r: Vec<ObjectId>)
    requires
        net@.wf(),
    ensures
        r@ == following_ids(net@, user_id),
{
    match net.find_user(user_id) {
        Some(i) => {
            proof { lemma_user_at(net@, i as int, user_id); }
            copy_vec(&net.users[i].following)
        },
        None => Vec::new(),
    }
}

/// The ids of the followers of the account `user_id`.
pub fn get_all_followers(net: &Network, user_id: ObjectId) -> (r: Vec<ObjectId>)
    requires
        net@.wf(),
    ensures
        r@ == followers_ids(net@, user_id),
{
    match net.find_user(user_id) {
        Some(i) => {
            proof { lemma_user_at(net@, i as int, user_id); }
            copy_vec(&net.users[i].followers)
        },
        None => Vec::new(),
    }
}

/// The public profiles of the accounts that `ids` name, numbered from zero.
pub fn profiles_of(net: &Network, ids: &Vec<ObjectId>, user_id: ObjectId) -> (r: Vec<publicUser>)
    requires
        net@.wf(),
        listing_fits(ids@),
    ensures
        r@.len() == profile_listing(net@, ids@, user_id).len(),
        forall|k: int| 0 <= k < r@.len() ==> #[trigger] r@[k]@ == public_of(
            profile_listing(net@, ids@, user_id)[k], k as i32),
{
    let mut users: Vec<publicUser> = Vec::new();
    let mut var: i32 = 0;
    let mut i: usize = 0;
    while i < ids.len()
        invariant
            i <= ids@.len(),
            net@.wf(),
            ids@.len() <= i32::MAX,
            users@.len() == var as int,
            users@.len() <= i,
            users@.len() == profile_listing(net@, ids@.subrange(0, i as int), user_id).len(),
            forall|k: int| 0 <= k < users@.len() ==> #[trigger] users@[k]@ == public_of(
                profile_listing(net@, ids@.subrange(0, i as int), user_id)[k], k as i32),
        decreases ids@.len() - i,
    {
        let ghost prev = ids@.subrange(0, i as int);
        assert(ids@.subrange(0, i + 1).drop_last() =~= prev);
        let x = ids[i];
        match net.find_user(x) {
            Some(j) => {
                proof { lemma_user_at(net@, j as int, x); }
                if net.users[j]._id != user_id {
                    let p = net.users[j].to_public(var);
                    users.push(p);
                    var = var + 1;
                }
            },
            None => {},
        }
        i += 1;
    }
    assert(ids@.subrange(0, ids@.len() as int) =~= ids@);
    users
}

/// The public profiles of whom `user_id` follows, in the order of its record.
pub fn get_all_following_profile(net: &Network, user_id: ObjectId) -> (r: Vec<publicUser>)
    requires
        net@.wf(),
        listing_fits(following_ids(net@, user_id)),
    ensures
        r@.len() == profile_listing(net@, following_ids(net@, user_id), user_id).len(),
        forall|k: int| 0 <= k < r@.len() ==> #[trigger] r@[k]@ == public_of(
            profile_listing(net@, following_ids(net@, user_id), user_id)[k], k as i32),
{
    let ids = get_all_following(net, user_id);
    profiles_of(net, &ids, user_id)
}

/// The public profiles of the followers of `user_id`, in the order of its record.
pub fn get_all_followers_profile(net: &Network, user_id: ObjectId) -> (r: Vec<publicUser>)
    requires
        net@.wf(),
        listing_fits(followers_ids(net@, user_id)),
    ensures
        r@.len() == profile_listing(net@, followers_ids(net@, user_id), user_id).len(),
        forall|k: int| 0 <= k < r@.len() ==> #[trigger] r@[k]@ == public_of(
            profile_listing(net@, followers_ids(net@, user_id), user_id)[k], k as i32),
{
    let ids = get_all_followers(net, user_id);
    profiles_of(net, &ids, user_id)
}

/// The profile that stands for "no account": zero id, empty text and arrays.
pub open spec fn empty_profile() -> PublicView {
    PublicView {
        ref_no: 0,
        id: ObjectId { value: 0 },
        username: Seq::empty(),
        name: Seq::empty(),
        description: Seq::empty(),
        followers: Seq::empty(),
        following: Seq::empty(),
        voice_notes: Seq::empty(),
    }
}

/// The public profile of the account named `username`, unless it is `user_id`
/// itself or there is none; then the empty profile.
pub fn find_users_by_names(net: &Network, username: &String, user_id: ObjectId) -> (r: publicUser)
    requires
        net@.wf(),
    ensures
        r@ == (if net@.has_username(username@) && net@.users[net@.username_index(username@)].id != user_id {
            public_of(net@.users[net@.username_index(username@)], 0)
        } else {
            empty_profile()
        }),
{
    match net.find_username(username) {
        Some(i) => {
            proof { crate::social::lemma_username_at(net@, i as int, username@); }
            if net.users[i]._id != user_id {
                return net.users[i].to_public(0);
            }
        },
        None => {},
    }
    publicUser {
        refNo: 0,
        _id: ObjectId::zero(),
        username: String::new(),
        name: String::new(),
        description: String::new(),
        followers: Vec::new(),
        following: Vec::new(),
        voice_notes: Vec::new(),
    }
}

} // verus!

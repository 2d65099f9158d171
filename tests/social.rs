use voicenet::feed::{get_all_voice_ids_from_following, sort_voice_notes_by_timestamp_desc};
use voicenet::listing::{
    find_users_by_names, get_all_followers_profile, get_all_following, get_all_following_profile,
};
use voicenet::model::{ObjectId, Reaction, ReactionType, SocialError, VoiceNote};
use voicenet::posts::{
    add_reply, create_comment, create_conversation, create_post, delete_post,
    download_voice_notes, get_user_of_vn,
};
use voicenet::social::{
    create_user, follow, get_user_by_username, react_to_quote, remove_follower,
    remove_follower_edges, unfollow, unfollow_edges,
    update_description_by_username, update_password_by_username, update_user_name_by_username,
};
use voicenet::store::Network;

fn oid(n: u128) -> ObjectId {
    ObjectId { value: n }
}

fn s(t: &str) -> String {
    t.to_string()
}

fn net_with_users(names: &[&str]) -> Network {
    let mut net = Network::new();
    for (i, n) in names.iter().enumerate() {
        let r = create_user(&mut net, oid(i as u128 + 1), s(n), s("pw"), s(&n.to_uppercase()));
        assert_eq!(r, Ok(oid(i as u128 + 1)));
    }
    net
}

fn user<'a>(net: &'a Network, id: u128) -> &'a voicenet::model::Users {
    net.users.iter().find(|u| u._id == oid(id)).unwrap()
}

fn note<'a>(net: &'a Network, id: u128) -> &'a VoiceNote {
    net.notes.iter().find(|n| n._id == oid(id)).unwrap()
}

#[test]
fn register_then_login() {
    let mut net = Network::new();
    let first = create_user(&mut net, oid(10), s("alice"), s("pw1"), s("Alice"));
    assert_eq!(first, Ok(oid(10)));
    let second = create_user(&mut net, oid(11), s("alice"), s("pw2"), s("Other"));
    assert_eq!(second, Err(SocialError::Conflict));
    assert_eq!(net.users.len(), 1);
    assert!(net.users.iter().all(|u| u._id != oid(11)));
    assert!(get_user_by_username(&net, &s("alice"), &s("wrongpw")).is_none());
    let found = get_user_by_username(&net, &s("alice"), &s("pw1")).unwrap();
    assert_eq!(found._id, oid(10));
    assert_eq!(found.name, "Alice");
    assert_eq!(found.description, "");
    assert!(get_user_by_username(&net, &s("bob"), &s("pw1")).is_none());
}

#[test]
fn create_user_with_taken_id_conflicts() {
    let mut net = Network::new();
    assert_eq!(create_user(&mut net, oid(1), s("a"), s("p"), s("A")), Ok(oid(1)));
    assert_eq!(create_user(&mut net, oid(1), s("b"), s("p"), s("B")), Err(SocialError::Conflict));
    assert_eq!(net.users.len(), 1);
}

#[test]
fn follow_links_both_records() {
    let mut net = net_with_users(&["a", "b"]);
    follow(&mut net, oid(1), oid(2));
    assert_eq!(user(&net, 1).following, vec![oid(2)]);
    assert_eq!(user(&net, 2).followers, vec![oid(1)]);
    assert!(user(&net, 1).followers.is_empty());
    assert!(user(&net, 2).following.is_empty());
}

#[test]
fn follow_twice_appends_twice() {
    let mut net = net_with_users(&["a", "b"]);
    follow(&mut net, oid(1), oid(2));
    follow(&mut net, oid(1), oid(2));
    assert_eq!(user(&net, 1).following, vec![oid(2), oid(2)]);
    assert_eq!(user(&net, 2).followers, vec![oid(1), oid(1)]);
}

#[test]
fn follow_then_unfollow_clears_edge() {
    let mut net = net_with_users(&["a", "b", "c"]);
    follow(&mut net, oid(1), oid(2));
    follow(&mut net, oid(1), oid(3));
    follow(&mut net, oid(1), oid(2));
    follow(&mut net, oid(3), oid(1));
    let listed = unfollow(&mut net, oid(1), oid(2));
    assert_eq!(user(&net, 1).following, vec![oid(3)]);
    assert!(user(&net, 2).followers.is_empty());
    assert_eq!(listed.len(), 1);
    assert_eq!(listed[0]._id, oid(3));
    assert_eq!(listed[0].refNo, 0);
    assert_eq!(listed[0].username, "c");
}

#[test]
fn unfollow_lists_followers_not_followees() {
    let mut net = net_with_users(&["a", "b", "c"]);
    follow(&mut net, oid(1), oid(2));
    let listed = unfollow(&mut net, oid(1), oid(3));
    assert!(listed.is_empty());
    assert_eq!(user(&net, 1).following, vec![oid(2)]);
}

#[test]
fn unfollow_edges_of_absent_edge_changes_nothing() {
    let mut net = net_with_users(&["a", "b"]);
    follow(&mut net, oid(2), oid(1));
    unfollow_edges(&mut net, oid(1), oid(2));
    assert!(user(&net, 1).following.is_empty());
    assert_eq!(user(&net, 1).followers, vec![oid(2)]);
    assert_eq!(user(&net, 2).following, vec![oid(1)]);
    remove_follower_edges(&mut net, oid(1), oid(2));
    assert!(user(&net, 1).followers.is_empty());
    assert!(user(&net, 2).following.is_empty());
}

#[test]
fn feed_does_not_depend_on_list_order() {
    let build = |order: &[u128], posts: &[(u128, i64)]| {
        let mut net = net_with_users(&["a", "b", "c"]);
        for f in order {
            follow(&mut net, oid(1), oid(*f));
        }
        for (id, ts) in posts {
            let author = if *id % 2 == 0 { 2 } else { 3 };
            create_post(&mut net, oid(author), vec![], oid(*id), *ts).unwrap();
        }
        get_all_voice_ids_from_following(&net, oid(1))
            .iter()
            .map(|n| n._id)
            .collect::<Vec<ObjectId>>()
    };
    let first = build(&[2, 3], &[(100, 5), (101, 50), (102, 30), (103, 7)]);
    let second = build(&[3, 2], &[(103, 7), (102, 30), (101, 50), (100, 5)]);
    assert_eq!(first, vec![oid(101), oid(102), oid(103), oid(100)]);
    assert_eq!(first, second);
}

#[test]
fn remove_follower_clears_edge() {
    let mut net = net_with_users(&["a", "b", "c"]);
    follow(&mut net, oid(2), oid(1));
    follow(&mut net, oid(3), oid(1));
    let listed = remove_follower(&mut net, oid(1), oid(2));
    assert_eq!(user(&net, 1).followers, vec![oid(3)]);
    assert!(user(&net, 2).following.is_empty());
    assert_eq!(listed.len(), 1);
    assert_eq!(listed[0]._id, oid(3));
}

#[test]
fn profile_listings_number_entries_and_skip_self() {
    let mut net = net_with_users(&["a", "b", "c"]);
    follow(&mut net, oid(1), oid(3));
    follow(&mut net, oid(1), oid(1));
    follow(&mut net, oid(1), oid(2));
    follow(&mut net, oid(1), oid(99));
    assert_eq!(get_all_following(&net, oid(1)), vec![oid(3), oid(1), oid(2), oid(99)]);
    let listed = get_all_following_profile(&net, oid(1));
    assert_eq!(listed.len(), 2);
    assert_eq!((listed[0]._id, listed[0].refNo), (oid(3), 0));
    assert_eq!((listed[1]._id, listed[1].refNo), (oid(2), 1));
    assert_eq!(listed[1].name, "B");
    let followers = get_all_followers_profile(&net, oid(2));
    assert_eq!(followers.len(), 1);
    assert_eq!(followers[0]._id, oid(1));
    assert!(get_all_following_profile(&net, oid(42)).is_empty());
}

#[test]
fn find_by_username_skips_caller() {
    let net = net_with_users(&["a", "b"]);
    let found = find_users_by_names(&net, &s("b"), oid(1));
    assert_eq!(found._id, oid(2));
    assert_eq!(found.refNo, 0);
    assert_eq!(found.name, "B");
    let itself = find_users_by_names(&net, &s("b"), oid(2));
    assert_eq!(itself._id, oid(0));
    assert_eq!(itself.username, "");
    let none = find_users_by_names(&net, &s("zed"), oid(1));
    assert_eq!(none._id, oid(0));
}

#[test]
fn profile_updates_report_whether_account_exists() {
    let mut net = net_with_users(&["a"]);
    assert!(update_user_name_by_username(&mut net, &s("a"), &s("Anne")));
    assert!(update_password_by_username(&mut net, &s("a"), &s("secret2")));
    assert!(update_description_by_username(&mut net, &s("a"), &s("hello")));
    assert!(!update_user_name_by_username(&mut net, &s("zz"), &s("Z")));
    let u = user(&net, 1);
    assert_eq!(u.name, "Anne");
    assert_eq!(u.password, "secret2");
    assert_eq!(u.description, "hello");
}

#[test]
fn react_twice_keeps_one_reaction_with_second_kind() {
    let mut net = net_with_users(&["a", "b"]);
    assert_eq!(create_post(&mut net, oid(1), vec![1, 2], oid(100), 5), Ok(()));
    react_to_quote(&mut net, oid(100), oid(2), ReactionType::SpeakUp);
    react_to_quote(&mut net, oid(100), oid(2), ReactionType::ShutUp);
    assert_eq!(
        note(&net, 100).reactions,
        vec![Reaction { user_id: oid(2), reaction: ReactionType::ShutUp }]
    );
    react_to_quote(&mut net, oid(100), oid(2), ReactionType::ShutUp);
    assert_eq!(note(&net, 100).reactions.len(), 1);
    react_to_quote(&mut net, oid(100), oid(1), ReactionType::SpeakUp);
    assert_eq!(
        note(&net, 100).reactions,
        vec![
            Reaction { user_id: oid(2), reaction: ReactionType::ShutUp },
            Reaction { user_id: oid(1), reaction: ReactionType::SpeakUp },
        ]
    );
}

#[test]
fn react_to_missing_note_changes_nothing() {
    let mut net = net_with_users(&["a"]);
    react_to_quote(&mut net, oid(7), oid(1), ReactionType::SpeakUp);
    assert!(net.notes.is_empty());
}

#[test]
fn create_post_records_note_and_author_list() {
    let mut net = net_with_users(&["a"]);
    assert_eq!(create_post(&mut net, oid(1), vec![0, 16384, -16384], oid(100), 42), Ok(()));
    let n = note(&net, 100);
    assert_eq!(n.user_id, oid(1));
    assert_eq!(n.name, "A");
    assert!(n.is_post);
    assert_eq!(n.data, vec![0, 16384, -16384]);
    assert_eq!(n.timestamp, 42);
    assert_eq!(user(&net, 1).voice_notes, vec![oid(100)]);
    assert_eq!(create_post(&mut net, oid(1), vec![], oid(100), 43), Err(SocialError::Conflict));
    assert_eq!(create_post(&mut net, oid(9), vec![], oid(101), 43), Err(SocialError::NotFound));
    assert_eq!(net.notes.len(), 1);
}

#[test]
fn comment_is_threaded_but_not_listed_for_author() {
    let mut net = net_with_users(&["a", "b"]);
    create_post(&mut net, oid(1), vec![], oid(100), 1).unwrap();
    assert_eq!(create_comment(&mut net, oid(2), oid(100), oid(200), vec![5], 2), Ok(()));
    assert_eq!(note(&net, 100).replies, vec![oid(200)]);
    assert!(!note(&net, 200).is_post);
    assert!(user(&net, 2).voice_notes.is_empty());
    assert_eq!(create_comment(&mut net, oid(9), oid(100), oid(201), vec![], 3), Err(SocialError::NotFound));
}

#[test]
fn conversation_lists_replies_in_stored_order() {
    let mut net = net_with_users(&["a", "b", "c"]);
    create_post(&mut net, oid(1), vec![], oid(100), 1).unwrap();
    create_comment(&mut net, oid(3), oid(100), oid(201), vec![], 2).unwrap();
    create_comment(&mut net, oid(2), oid(100), oid(202), vec![], 3).unwrap();
    react_to_quote(&mut net, oid(100), oid(2), ReactionType::SpeakUp);
    let c = create_conversation(&net, oid(100));
    assert_eq!(c.v_id, oid(100));
    assert_eq!(c.v_user_id, oid(1));
    assert_eq!(c.reactions.len(), 1);
    assert_eq!(c.replies.len(), 2);
    assert_eq!(c.replies[0]._id, oid(201));
    assert_eq!(c.replies[0].user_id, (oid(3), s("C")));
    assert_eq!(c.replies[1]._id, oid(202));
    assert_eq!(c.replies[1].user_id, (oid(2), s("B")));
}

#[test]
fn conversation_of_missing_post_is_empty() {
    let net = net_with_users(&["a"]);
    let c = create_conversation(&net, oid(5));
    assert_eq!(c.v_id, oid(0));
    assert_eq!(c.v_user_id, oid(0));
    assert!(c.reactions.is_empty());
    assert!(c.replies.is_empty());
}

#[test]
fn deleted_reply_is_skipped_in_conversation() {
    let mut net = net_with_users(&["a", "b"]);
    create_post(&mut net, oid(1), vec![], oid(100), 1).unwrap();
    create_comment(&mut net, oid(2), oid(100), oid(201), vec![], 2).unwrap();
    create_comment(&mut net, oid(2), oid(100), oid(202), vec![], 3).unwrap();
    delete_post(&mut net, oid(201), oid(2));
    assert_eq!(note(&net, 100).replies, vec![oid(201), oid(202)]);
    let c = create_conversation(&net, oid(100));
    assert_eq!(c.replies.len(), 1);
    assert_eq!(c.replies[0]._id, oid(202));
}

#[test]
fn delete_post_removes_note_and_pulls_id() {
    let mut net = net_with_users(&["a"]);
    create_post(&mut net, oid(1), vec![], oid(100), 1).unwrap();
    create_post(&mut net, oid(1), vec![], oid(101), 2).unwrap();
    delete_post(&mut net, oid(100), oid(1));
    assert_eq!(net.notes.len(), 1);
    assert_eq!(net.notes[0]._id, oid(101));
    assert_eq!(user(&net, 1).voice_notes, vec![oid(101)]);
}

#[test]
fn author_of_note_and_samples() {
    let mut net = net_with_users(&["a"]);
    create_post(&mut net, oid(1), vec![3, -4], oid(100), 1).unwrap();
    assert_eq!(get_user_of_vn(&net, oid(100)), Some((oid(1), s("A"))));
    assert_eq!(get_user_of_vn(&net, oid(7)), None);
    assert_eq!(download_voice_notes(&net, oid(100)), vec![3, -4]);
    assert!(download_voice_notes(&net, oid(7)).is_empty());
}

#[test]
fn add_reply_to_missing_note_is_a_no_op() {
    let mut net = net_with_users(&["a"]);
    create_post(&mut net, oid(1), vec![], oid(100), 1).unwrap();
    add_reply(&mut net, oid(55), oid(7));
    assert!(note(&net, 100).replies.is_empty());
    add_reply(&mut net, oid(100), oid(7));
    assert_eq!(note(&net, 100).replies, vec![oid(7)]);
}

#[test]
fn feed_is_newest_first_whatever_the_insertion_order() {
    let mut net = net_with_users(&["a", "b", "c"]);
    follow(&mut net, oid(1), oid(2));
    follow(&mut net, oid(1), oid(3));
    create_post(&mut net, oid(2), vec![], oid(100), 20).unwrap();
    create_post(&mut net, oid(3), vec![], oid(101), 30).unwrap();
    create_post(&mut net, oid(2), vec![], oid(102), 10).unwrap();
    let feed = get_all_voice_ids_from_following(&net, oid(1));
    let ids: Vec<ObjectId> = feed.iter().map(|n| n._id).collect();
    assert_eq!(ids, vec![oid(101), oid(100), oid(102)]);
}

#[test]
fn feed_leaves_out_replies_and_strangers() {
    let mut net = net_with_users(&["a", "b", "c"]);
    follow(&mut net, oid(1), oid(2));
    create_post(&mut net, oid(2), vec![], oid(100), 20).unwrap();
    create_post(&mut net, oid(3), vec![], oid(101), 30).unwrap();
    create_comment(&mut net, oid(2), oid(101), oid(200), vec![], 40).unwrap();
    save_reply_in_author_list(&mut net);
    let feed = get_all_voice_ids_from_following(&net, oid(1));
    assert_eq!(feed.len(), 1);
    assert_eq!(feed[0]._id, oid(100));
    assert!(feed.iter().all(|n| n.is_post));
    assert!(get_all_voice_ids_from_following(&net, oid(3)).is_empty());
}

fn save_reply_in_author_list(net: &mut Network) {
    voicenet::posts::save_voice_note(net, oid(2), oid(200));
    assert_eq!(user(net, 2).voice_notes, vec![oid(100), oid(200)]);
}

#[test]
fn sort_orders_by_timestamp_descending() {
    let mk = |id: u128, ts: i64| VoiceNote {
        _id: oid(id),
        user_id: oid(1),
        name: s("n"),
        is_post: true,
        data: vec![],
        replies: vec![],
        reactions: vec![],
        timestamp: ts,
    };
    let mut notes = vec![mk(1, 5), mk(2, 9), mk(3, -1), mk(4, 7)];
    sort_voice_notes_by_timestamp_desc(&mut notes);
    let ts: Vec<i64> = notes.iter().map(|n| n.timestamp).collect();
    assert_eq!(ts, vec![9, 7, 5, -1]);
    let mut empty: Vec<VoiceNote> = vec![];
    sort_voice_notes_by_timestamp_desc(&mut empty);
    assert!(empty.is_empty());
}

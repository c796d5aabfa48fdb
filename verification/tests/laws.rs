use hurry::party::Party;
use hurry::snowflake::Snowflake;
use hurry::state::AppState;
use hurry::user::User;

#[test]
fn law_register_then_me_concrete() {
    let mut st = AppState::new();
    let mut g = Snowflake::id_generator();
    st.register("x", "1", &mut g);
    let s = st.register("y", "2", &mut g);
    let u = st.me(&s).expect("profile");
    assert_eq!(u.username, "y");
    assert_eq!(u.id, s.user_id);
}

#[test]
fn law_login_then_authenticate_concrete() {
    let mut st = AppState::new();
    let mut g = Snowflake::id_generator();
    st.register("x", "one", &mut g);
    st.register("y", "two", &mut g);
    let s = st.login("two", &mut g).expect("logged in");
    let u = st.authenticate(&s).expect("authenticated");
    assert_eq!(u.username, "y");
}

#[test]
fn law_accounts_only_grow_concrete() {
    let mut st = AppState::new();
    let mut g = Snowflake::id_generator();
    let s1 = st.register("x", "one", &mut g);
    let first_user = st.users()[0].id;
    let s2 = st.login("one", &mut g).unwrap();
    let s3 = st.register("z", "three", &mut g);
    assert_eq!(st.sessions().to_vec(), vec![s1, s2, s3]);
    assert_eq!(st.users().len(), 2);
    assert_eq!(st.users()[0].id, first_user);
}

#[test]
fn law_create_then_remove_party_concrete() {
    let mut st = AppState::new();
    let mut g = Snowflake::id_generator();
    let o = User::new("o", "p", &mut g);
    st.insert_party(Snowflake(1), Party::new(o.clone(), "kept"));
    let (id, _) = st.create_party(o, "temp", &mut g);
    assert!(st.remove_party(id));
    assert!(!st.contains_party(id));
    assert_eq!(st.party(Snowflake(1)).unwrap().name, "kept");
}

#[test]
fn law_party_lookup_after_insert_concrete() {
    let mut st = AppState::new();
    let mut g = Snowflake::id_generator();
    let o = User::new("o", "p", &mut g);
    st.insert_party(Snowflake(1), Party::new(o.clone(), "a"));
    st.insert_party(Snowflake(2), Party::new(o, "b"));
    assert_eq!(st.party(Snowflake(2)).unwrap().name, "b");
    assert_eq!(st.party(Snowflake(1)).unwrap().name, "a");
    assert!(st.party(Snowflake(3)).is_none());
}

#[test]
fn law_post_keeps_chat_concrete() {
    let mut st = AppState::new();
    let mut g = Snowflake::id_generator();
    let o = User::new("o", "p", &mut g);
    let (id, _) = st.create_party(o.clone(), "n", &mut g);
    st.attach_video(id, "v");
    let a = st.post_message(id, "a".to_string(), o.clone(), &mut g).unwrap();
    let b = st.post_message(id, "b".to_string(), o, &mut g).unwrap();
    let msgs = st.messages(id).unwrap();
    assert_eq!(msgs.len(), 2);
    assert_eq!(msgs[0].id, a.id);
    assert_eq!(msgs[1].id, b.id);
    assert_eq!(msgs[1].content, "b");
    assert_eq!(st.party(id).unwrap().video.as_ref().unwrap().video_url, "v");
}

#[test]
fn law_register_in_order_then_authenticate_concrete() {
    let mut st = AppState::new();
    let mut g = Snowflake::id_generator();
    let mut sessions = Vec::new();
    for i in 0..10 {
        let s = st.register(&format!("user{}", i), "pw", &mut g);
        assert_ne!(s.id, s.user_id);
        sessions.push(s);
    }
    for (i, s) in sessions.iter().enumerate() {
        let u = st.authenticate(s).expect("authenticated");
        assert_eq!(u.username, format!("user{}", i));
        assert_eq!(st.me(s).unwrap().id, s.user_id);
    }
}

#[test]
fn law_create_party_fresh_key_concrete() {
    let mut st = AppState::new();
    let mut g = Snowflake::id_generator();
    let o = User::new("o", "p", &mut g);
    let mut ids = Vec::new();
    for i in 0..50 {
        let (id, _) = st.create_party(o.clone(), &format!("p{}", i), &mut g);
        ids.push(id);
    }
    for (i, id) in ids.iter().enumerate() {
        assert_eq!(st.party(*id).unwrap().name, format!("p{}", i));
    }
}

#[test]
fn law_later_ids_larger_concrete() {
    let mut g = Snowflake::id_generator();
    let mut previous = Snowflake::generate(&mut g);
    for _ in 0..10000 {
        let next = Snowflake::generate(&mut g);
        assert!(previous.0 < next.0);
        previous = next;
    }
}

#[test]
fn law_authentication_survives_concrete() {
    let mut st = AppState::new();
    let mut g = Snowflake::id_generator();
    let s = st.register("first", "pw", &mut g);
    st.register("second", "pw", &mut g);
    st.login("pw", &mut g);
    let o = User::new("o", "p", &mut g);
    let (id, _) = st.create_party(o.clone(), "n", &mut g);
    st.post_message(id, "m".to_string(), o, &mut g);
    st.attach_video(id, "v");
    st.remove_party(id);
    assert_eq!(st.authenticate(&s).unwrap().username, "first");
    assert_eq!(st.me(&s).unwrap().username, "first");
}

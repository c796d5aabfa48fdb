use hurry::gateway::{handle_event, GatewayAction, GatewayEvent};
use hurry::party::Party;
use hurry::session::{Session, SESSION_EXPIRY};
use hurry::snowflake::Snowflake;
use hurry::state::{verify_user, AppState, AuthError, MeError};
use hurry::user::{Private, User};

fn fresh() -> (AppState, snowflake::SnowflakeIdGenerator) {
    (AppState::new(), Snowflake::id_generator())
}

#[test]
fn register_adds_user_and_session() {
    let (mut st, mut g) = fresh();
    let s = st.register("bob", "pw1", &mut g);
    assert_eq!(st.users().len(), 1);
    assert_eq!(st.sessions().len(), 1);
    assert_eq!(st.sessions()[0], s);
    assert_eq!(st.users()[0].id, s.user_id);
    assert_eq!(st.users()[0].username, "bob");
    assert!(matches!(&st.users()[0].hash_password, Private::Hidden(p) if p == "pw1"));
    assert_eq!(s.exp, SESSION_EXPIRY);
}

#[test]
fn law_register_then_authenticate_concrete() {
    let (mut st, mut g) = fresh();
    st.register("a", "1", &mut g);
    let s = st.register("b", "2", &mut g);
    let u = st.authenticate(&s).expect("authenticated");
    assert_eq!(u.username, "b");
    assert_eq!(u.id, s.user_id);
    let me = st.me(&s).expect("profile");
    assert_eq!(me.username, "b");
}

#[test]
fn login_picks_first_user_with_password() {
    let (mut st, mut g) = fresh();
    st.register("a", "same", &mut g);
    st.register("b", "same", &mut g);
    let first = st.users()[0].id;
    let s = st.login("same", &mut g).expect("logged in");
    assert_eq!(s.user_id, first);
    assert_eq!(st.sessions().len(), 3);
    assert_eq!(st.sessions()[2], s);
}

#[test]
fn login_ignores_shown_passwords_and_wrong_ones() {
    let (mut st, mut g) = fresh();
    let mut u = User::new("c", "open", &mut g);
    u.hash_password.set_public();
    st.add_user(u);
    assert!(st.login("open", &mut g).is_none());
    assert!(st.login("nope", &mut g).is_none());
    assert_eq!(st.sessions().len(), 0);
}

#[test]
fn law_register_then_login_concrete() {
    let (mut st, mut g) = fresh();
    st.register("d", "pw", &mut g);
    let s = st.login("pw", &mut g).expect("logged in");
    let u = st.authenticate(&s).expect("authenticated");
    assert_eq!(u.username, "d");
}

#[test]
fn me_errors() {
    let (mut st, mut g) = fresh();
    let s = st.register("e", "pw", &mut g);
    let unknown_session = Session { id: Snowflake(1), user_id: s.user_id, exp: 0 };
    assert_eq!(st.me(&unknown_session).unwrap_err(), MeError::SessionNotFound);
    let unknown_user = Session { id: s.id, user_id: Snowflake(2), exp: 0 };
    assert_eq!(st.me(&unknown_user).unwrap_err(), MeError::UserNotFound);
}

#[test]
fn verify_user_outcomes() {
    let (mut st, mut g) = fresh();
    let s = st.register("f", "pw", &mut g);
    match verify_user(Ok(s), &st) {
        Ok(u) => assert_eq!(u.username, "f"),
        Err(_) => panic!("expected a user"),
    }
    match verify_user(Err("InvalidToken".to_string()), &st) {
        Err(AuthError::InvalidToken(m)) => assert_eq!(m, "InvalidToken"),
        _ => panic!("expected a token error"),
    }
    let other = Session { id: Snowflake(99), user_id: s.user_id, exp: s.exp };
    assert!(matches!(verify_user(Ok(other), &st), Err(AuthError::Unauthorized)));
    // verify_user follows the stored session, not the user named in the claims
    let forged = Session { id: s.id, user_id: Snowflake(12345), exp: s.exp };
    match verify_user(Ok(forged), &st) {
        Ok(u) => assert_eq!(u.id, s.user_id),
        Err(_) => panic!("expected the stored session's user"),
    }
    let mut st2 = AppState::new();
    st2.add_session(s);
    assert!(matches!(verify_user(Ok(s), &st2), Err(AuthError::Unauthorized)));
}

#[test]
fn parties_create_lookup_remove() {
    let (mut st, mut g) = fresh();
    let owner = User::new("o", "p", &mut g);
    let (id, p) = st.create_party(owner, "night", &mut g);
    assert_eq!(p.name, "night");
    assert!(st.contains_party(id));
    assert_eq!(st.party(id).unwrap().name, "night");
    assert_eq!(st.messages(id).unwrap().len(), 0);
    assert!(st.remove_party(id));
    assert!(!st.contains_party(id));
    assert!(st.party(id).is_none());
    assert!(st.messages(id).is_none());
    assert!(!st.remove_party(id));
}

#[test]
fn insert_party_replaces() {
    let (mut st, mut g) = fresh();
    let o = User::new("o", "p", &mut g);
    st.insert_party(Snowflake(7), Party::new(o.clone(), "one"));
    st.insert_party(Snowflake(7), Party::new(o, "two"));
    assert_eq!(st.party(Snowflake(7)).unwrap().name, "two");
}

#[test]
fn messages_are_appended() {
    let (mut st, mut g) = fresh();
    let owner = User::new("o", "p", &mut g);
    let (id, _) = st.create_party(owner.clone(), "n", &mut g);
    let m1 = st.post_message(id, "first".to_string(), owner.clone(), &mut g).unwrap();
    let m2 = st.create_message(id, "guest", "second".to_string(), &mut g).unwrap();
    assert_eq!(m2.author.username, "guest");
    assert!(matches!(&m2.author.hash_password, Private::Hidden(p) if p == "as"));
    let msgs = st.messages(id).unwrap();
    assert_eq!(msgs.len(), 2);
    assert_eq!(msgs[0].id, m1.id);
    assert_eq!(msgs[0].content, "first");
    assert_eq!(msgs[1].id, m2.id);
    assert!(st.post_message(Snowflake(1), "x".to_string(), owner, &mut g).is_none());
    assert!(st.create_message(Snowflake(1), "g", "x".to_string(), &mut g).is_none());
    assert_eq!(st.messages(id).unwrap().len(), 2);
}

#[test]
fn law_attach_then_remove_video_concrete() {
    let (mut st, mut g) = fresh();
    let owner = User::new("o", "p", &mut g);
    let (id, _) = st.create_party(owner.clone(), "n", &mut g);
    st.post_message(id, "hello".to_string(), owner, &mut g);
    let p = st.attach_video(id, "u1").unwrap();
    assert_eq!(p.video.as_ref().unwrap().video_url, "u1");
    assert_eq!(p.messages.len(), 1);
    let p = st.remove_video(id).unwrap();
    assert!(p.video.is_none());
    assert_eq!(p.name, "n");
    assert_eq!(p.messages.len(), 1);
    assert!(st.attach_video(Snowflake(3), "u").is_none());
    assert!(st.remove_video(Snowflake(3)).is_none());
}

#[test]
fn gateway_events() {
    let (mut st, mut g) = fresh();
    let owner = User::new("o", "p", &mut g);
    let (id, _) = st.create_party(owner.clone(), "n", &mut g);
    match handle_event(&mut st, &owner, GatewayEvent::Message { party: id, content: "yo".to_string() }, &mut g) {
        GatewayAction::EmitMessage(m) => {
            assert_eq!(m.content, "yo");
            assert_eq!(m.author.id, owner.id);
        },
        _ => panic!("expected a message"),
    }
    match handle_event(&mut st, &owner, GatewayEvent::Join { party: id }, &mut g) {
        GatewayAction::Joined(p) => assert_eq!(p.messages.len(), 1),
        _ => panic!("expected the party"),
    }
    assert!(matches!(handle_event(&mut st, &owner, GatewayEvent::Event { party: id }, &mut g), GatewayAction::Forward));
    let missing = Snowflake(42);
    assert!(matches!(handle_event(&mut st, &owner, GatewayEvent::Event { party: missing }, &mut g), GatewayAction::PartyNotFound));
    assert!(matches!(handle_event(&mut st, &owner, GatewayEvent::Join { party: missing }, &mut g), GatewayAction::PartyNotFound));
    assert!(matches!(handle_event(&mut st, &owner, GatewayEvent::Message { party: missing, content: "x".to_string() }, &mut g), GatewayAction::PartyNotFound));
    assert_eq!(st.messages(id).unwrap().len(), 1);
}

use hurry::message::Message;
use hurry::party::Party;
use hurry::prelude::W;
use hurry::session::{Session, SESSION_EXPIRY};
use hurry::snowflake::Snowflake;
use hurry::user::{Private, User, UserRequest};
use hurry::video::Video;

#[test]
fn private_marks() {
    let mut p: Private<String> = Private::from("secret".to_string());
    assert!(p.is_private());
    p.set_public();
    assert!(!p.is_private());
    assert_eq!(p.get(), "secret");
    p.set_private();
    assert!(p.is_private());
    assert_eq!(p.get(), "secret");
    let d: Private<String> = Private::default();
    assert!(d.is_private());
    assert_eq!(d.get(), "");
    let shown = Private::Shown(3u8);
    assert!(!shown.is_private());
    assert_eq!(*shown.get(), 3);
}

#[test]
fn new_user_has_hidden_password() {
    let mut generator = Snowflake::id_generator();
    let u = User::new("ann", "pw", &mut generator);
    assert_eq!(u.username, "ann");
    assert!(u.hash_password.is_private());
    assert_eq!(u.hash_password.get(), "pw");
    let c = u.clone();
    assert_eq!(c.id, u.id);
    assert_eq!(c.username, "ann");
    assert!(c.hash_password.is_private());
    let r = UserRequest { user: c };
    assert_eq!(r.user.id, u.id);
}

#[test]
fn new_session_of_user() {
    let mut generator = Snowflake::id_generator();
    let s = Session::new(Snowflake(5), &mut generator);
    assert_eq!(s.user_id, Snowflake(5));
    assert_eq!(s.exp, SESSION_EXPIRY);
    assert_eq!(SESSION_EXPIRY, 10000000000);
}

#[test]
fn new_message_and_party() {
    let mut generator = Snowflake::id_generator();
    let owner = User::new("own", "x", &mut generator);
    let owner_id = owner.id;
    let m = Message::new("hi".to_string(), owner.clone(), &mut generator);
    assert_eq!(m.content, "hi");
    assert_eq!(m.author.id, owner_id);
    assert_ne!(m.id, owner_id);
    let p = Party::new(owner, "movie night");
    assert_eq!(p.name, "movie night");
    assert_eq!(p.owner.id, owner_id);
    assert!(p.messages.is_empty());
    assert!(p.video.is_none());
    let mut q = p.clone();
    q.messages.push(m.clone());
    let q2 = q.clone();
    assert_eq!(q2.messages.len(), 1);
    assert_eq!(q2.messages[0].content, "hi");
    assert_eq!(q2.messages[0].id, m.id);
}

#[test]
fn videos() {
    let v = Video::new("https://example.com/a.mp4");
    assert_eq!(v.video_url, "https://example.com/a.mp4");
    assert_eq!(v.clone().video_url, v.video_url);
    assert_eq!(Video::default().video_url, "");
}

#[test]
fn wrapper_holds_value() {
    let w = W(5u32);
    assert_eq!(w.clone().0, 5);
}

#[test]
fn private_compares_and_clones() {
    let a: Private<String> = Private::Hidden("x".to_string());
    assert_eq!(a.clone(), a);
    assert_ne!(a, Private::Shown("x".to_string()));
}

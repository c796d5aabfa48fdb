use crate::message::{Message, MessageView};
use crate::party::{Party, PartyView};
use crate::session::{Session, SESSION_EXPIRY};
use crate::snowflake::{
    generated_by, generated_two, generator_counter, generator_time, law_generated_increases,
    precedes, well_placed, Snowflake,
};
use crate::user::{Private, User, UserView};
use crate::video::{Video, VideoView};
use std::collections::HashMap;
use vstd::prelude::*;

verus! {

broadcast use vstd::std_specs::hash::group_hash_axioms;

/// The first element of `s` that satisfies `p`.
pub open spec fn first_where<A>(s: Seq<A>, p: spec_fn(A) -> bool) -> Option<A>
    decreases s.len(),
{
    if s.len() == 0 {
        None
    } else if p(s[0]) {
        Some(s[0])
    } else {
        first_where(s.drop_first(), p)
    }
}

pub open spec fn user_has_id(id: Snowflake) -> spec_fn(UserView) -> bool {
    |u: UserView| u.id == id
}

pub open spec fn session_has_id(id: Snowflake) -> spec_fn(Session) -> bool {
    |s: Session| s.id == id
}

/// A user whose stored password is hidden and equal to `password`.
pub open spec fn user_has_password(password: Seq<char>) -> spec_fn(UserView) -> bool {
    |u: UserView| u.hash_password == Private::Hidden(password)
}

pub open spec fn users_view(users: Seq<User>) -> Seq<UserView> {
    users.map_values(|u: User| u@)
}

/// Why the profile of a session's user cannot be given.
#[derive(Debug, Clone, Copy, PartialEq, Eq, Structural)]
pub enum MeError {
    SessionNotFound,
    UserNotFound,
}

/// Why a request is not authenticated.
#[derive(Debug)]
pub enum AuthError {
    /// The token could not be decoded; the decoder's message.
    InvalidToken(String),
    /// The token names no stored session, or the session's user is gone.
    Unauthorized,
}

/// The mathematical content of the application state.
#[verifier::ext_equal]
pub struct AppStateView {
    pub users: Seq<UserView>,
    pub sessions: Seq<Session>,
    pub parties: Map<i64, PartyView>,
}

impl AppStateView {
    /// The state after an account and its first session were added.
    pub open spec fn with_account(self, user: UserView, session: Session) -> AppStateView {
        AppStateView { users: self.users.push(user), sessions: self.sessions.push(session), ..self }
    }

    /// The state after a session was added.
    pub open spec fn with_session(self, session: Session) -> AppStateView {
        AppStateView { sessions: self.sessions.push(session), ..self }
    }

    /// The user that logging in with `password` opens a session for.
    pub open spec fn login_user(self, password: Seq<char>) -> Option<UserView> {
        first_where(self.users, user_has_password(password))
    }

    /// The user that a token with these claims authenticates: the user of the
    /// stored session that has the claims' session identifier.
    pub open spec fn authenticate(self, claims: Session) -> Option<UserView> {
        match first_where(self.sessions, session_has_id(claims.id)) {
            Some(stored) => first_where(self.users, user_has_id(stored.user_id)),
            None => None,
        }
    }

    /// The profile that the claims of a token ask for: the user named by the
    /// claims, provided that their session is stored.
    pub open spec fn me(self, claims: Session) -> Result<UserView, MeError> {
        if first_where(self.sessions, session_has_id(claims.id)) is None {
            Err(MeError::SessionNotFound)
        } else {
            match first_where(self.users, user_has_id(claims.user_id)) {
                Some(u) => Ok(u),
                None => Err(MeError::UserNotFound),
            }
        }
    }

    pub open spec fn with_party(self, id: i64, party: PartyView) -> AppStateView {
        AppStateView { parties: self.parties.insert(id, party), ..self }
    }

    pub open spec fn without_party(self, id: i64) -> AppStateView {
        AppStateView { parties: self.parties.remove(id), ..self }
    }

    /// The state after the party `id` was given the video `video` (or none).
    pub open spec fn with_video(self, id: i64, video: Option<VideoView>) -> AppStateView {
        self.with_party(id, PartyView { video: video, ..self.parties[id] })
    }

    /// The state after `message` was appended to the chat of the party `id`.
    pub open spec fn with_message(self, id: i64, message: MessageView) -> AppStateView {
        self.with_party(
            id,
            PartyView { messages: self.parties[id].messages.push(message), ..self.parties[id] },
        )
    }
}

/// Users, sessions and parties of the running service.
pub struct AppState {
    users: Vec<User>,
    sessions: Vec<Session>,
    parties: HashMap<i64, Party>,
}

impl View for AppState {
    type V = AppStateView;

    closed spec fn view(&self) -> AppStateView {
        AppStateView {
            users: users_view(self.users@),
            sessions: self.sessions@,
            parties: self.parties@.map_values(|p: Party| p@),
        }
    }
}

proof fn lemma_first_where_skip<A>(s: Seq<A>, p: spec_fn(A) -> bool, i: int)
    requires
        0 <= i < s.len(),
    ensures
        first_where(s.skip(i), p) == (if p(s[i]) {
            Some(s[i])
        } else {
            first_where(s.skip(i + 1), p)
        }),
{
    assert(s.skip(i).drop_first() =~= s.skip(i + 1));
    assert(s.skip(i)[0] == s[i]);
}

/// Index of the first user with identifier `id`.
fn find_user_with_id(users: &Vec<User>, id: Snowflake) -> (r: Option<usize>)
    ensures
        match r {
            Some(i) => i < users@.len() && first_where(users_view(users@), user_has_id(id)) == Some(
                users@[i as int]@,
            ),
            None => first_where(users_view(users@), user_has_id(id)) is None,
        },
{
    let ghost v = users_view(users@);
    assert(v.skip(0) =~= v);
    let mut i: usize = 0;
    while i < users.len()
        invariant
            i <= users@.len(),
            v == users_view(users@),
            first_where(v, user_has_id(id)) == first_where(v.skip(i as int), user_has_id(id)),
        decreases users@.len() - i,
    {
        proof {
            lemma_first_where_skip(v, user_has_id(id), i as int);
        }
        if users[i].id == id {
            return Some(i);
        }
        i = i + 1;
    }
    assert(v.skip(i as int) =~= Seq::<UserView>::empty());
    None
}

/// Index of the first user whose password is hidden and equal to `password`.
fn find_user_with_password(users: &Vec<User>, password: &str) -> (r: Option<usize>)
    ensures
        match r {
            Some(i) => i < users@.len() && first_where(
                users_view(users@),
                user_has_password(password@),
            ) == Some(users@[i as int]@),
            None => first_where(users_view(users@), user_has_password(password@)) is None,
        },
{
    let ghost v = users_view(users@);
    let ghost p = user_has_password(password@);
    let wanted: String = password.to_owned();
    assert(v.skip(0) =~= v);
    let mut i: usize = 0;
    while i < users.len()
        invariant
            i <= users@.len(),
            v == users_view(users@),
            p == user_has_password(password@),
            wanted@ == password@,
            first_where(v, p) == first_where(v.skip(i as int), p),
        decreases users@.len() - i,
    {
        proof {
            lemma_first_where_skip(v, p, i as int);
        }
        let found = match &users[i].hash_password {
            Private::Hidden(pass) => pass.eq(&wanted),
            Private::Shown(_) => false,
        };
        if found {
            return Some(i);
        }
        i = i + 1;
    }
    assert(v.skip(i as int) =~= Seq::<UserView>::empty());
    None
}

/// Index of the first stored session with identifier `id`.
fn find_session_with_id(sessions: &Vec<Session>, id: Snowflake) -> (r: Option<usize>)
    ensures
        match r {
            Some(i) => i < sessions@.len() && first_where(sessions@, session_has_id(id)) == Some(
                sessions@[i as int],
            ),
            None => first_where(sessions@, session_has_id(id)) is None,
        },
{
    let ghost v = sessions@;
    assert(v.skip(0) =~= v);
    let mut i: usize = 0;
    while i < sessions.len()
        invariant
            i <= sessions@.len(),
            v == sessions@,
            first_where(v, session_has_id(id)) == first_where(v.skip(i as int), session_has_id(id)),
        decreases sessions@.len() - i,
    {
        proof {
            lemma_first_where_skip(v, session_has_id(id), i as int);
        }
        if sessions[i].id == id {
            return Some(i);
        }
        i = i + 1;
    }
    assert(v.skip(i as int) =~= Seq::<Session>::empty());
    None
}

impl AppState {
    /// A state without users, sessions or parties.
    pub fn new() -> (st: AppState)
        ensures
            st@.users == Seq::<UserView>::empty(),
            st@.sessions == Seq::<Session>::empty(),
            st@.parties == Map::<i64, PartyView>::empty(),
    {
        let st = AppState { users: Vec::new(), sessions: Vec::new(), parties: HashMap::new() };
        assert(st@.users =~= Seq::<UserView>::empty());
        assert(st@.parties =~= Map::<i64, PartyView>::empty());
        st
    }

    /// All registered users, oldest first.
    pub fn users(&self) -> (r: &Vec<User>)
        ensures
            users_view(r@) == self@.users,
    {
        &self.users
    }

    /// All stored sessions, oldest first.
    pub fn sessions(&self) -> (r: &Vec<Session>)
        ensures
            r@ == self@.sessions,
    {
        &self.sessions
    }

    /// Stores a user.
    pub fn add_user(&mut self, user: User)
        ensures
            final(self)@ == (AppStateView { users: old(self)@.users.push(user@), ..old(self)@ }),
    {
        self.users.push(user);
        assert(final(self)@.users =~= old(self)@.users.push(user@));
    }

    /// Stores a session.
    pub fn add_session(&mut self, session: Session)
        ensures
            final(self)@ == old(self)@.with_session(session),
    {
        self.sessions.push(session);
    }

    /// Registers an account: a new user with a fresh identifier and a hidden
    /// password, and a first session of that user, which is returned.
    pub fn register(
        &mut self,
        username: &str,
        password: &str,
        generator: &mut snowflake::SnowflakeIdGenerator,
    ) -> (session: Session)
        ensures
            final(self)@ == old(self)@.with_account(final(self)@.users.last(), session),
            final(self)@.users.last().username == username@,
            final(self)@.users.last().hash_password == Private::Hidden(password@),
            session.user_id == final(self)@.users.last().id,
            session.exp == SESSION_EXPIRY,
            generated_two(
                *old(generator),
                *final(generator),
                final(self)@.users.last().id,
                session.id,
            ),
    {
        let user = User::new(username, password, generator);
        let ghost middle = *generator;
        let session = Session::new(user.id, generator);
        assert(generated_by(*old(generator), middle, user.id));
        let ghost u = user@;
        self.sessions.push(session);
        self.users.push(user);
        assert(final(self)@.users =~= old(self)@.users.push(u));
        session
    }

    /// Logs in with a password: opens a session for the first user whose
    /// hidden password is `password`, or returns `None` and changes nothing.
    pub fn login(&mut self, password: &str, generator: &mut snowflake::SnowflakeIdGenerator) -> (r:
        Option<Session>)
        ensures
            match old(self)@.login_user(password@) {
                Some(u) => r matches Some(s) && s.user_id == u.id && s.exp == SESSION_EXPIRY
                    && final(self)@ == old(self)@.with_session(s) && generated_by(
                    *old(generator),
                    *final(generator),
                    s.id,
                ),
                None => r is None && final(self)@ == old(self)@ && *final(generator) == *old(
                    generator,
                ),
            },
    {
        match find_user_with_password(&self.users, password) {
            Some(i) => {
                let session = Session::new(self.users[i].id, generator);
                self.sessions.push(session);
                Some(session)
            },
            None => None,
        }
    }

    /// The profile that a token's claims ask for.
    pub fn me(&self, claims: &Session) -> (r: Result<User, MeError>)
        ensures
            match r {
                Ok(u) => self@.me(*claims) == Ok::<UserView, MeError>(u@),
                Err(e) => self@.me(*claims) == Err::<UserView, MeError>(e),
            },
    {
        match find_session_with_id(&self.sessions, claims.id) {
            None => Err(MeError::SessionNotFound),
            Some(_) => match find_user_with_id(&self.users, claims.user_id) {
                Some(i) => Ok(self.users[i].clone()),
                None => Err(MeError::UserNotFound),
            },
        }
    }

    /// The user authenticated by a token with these claims.
    pub fn authenticate(&self, claims: &Session) -> (r: Option<User>)
        ensures
            match self@.authenticate(*claims) {
                Some(u) => r matches Some(x) && x@ == u,
                None => r is None,
            },
    {
        match find_session_with_id(&self.sessions, claims.id) {
            None => None,
            Some(i) => {
                let user_id = self.sessions[i].user_id;
                match find_user_with_id(&self.users, user_id) {
                    Some(j) => Some(self.users[j].clone()),
                    None => None,
                }
            },
        }
    }

    /// Whether a party with identifier `id` exists.
    pub fn contains_party(&self, id: Snowflake) -> (b: bool)
        ensures
            b == self@.parties.contains_key(id.0),
    {
        self.parties.contains_key(&id.0)
    }

    /// The party with identifier `id`.
    pub fn party(&self, id: Snowflake) -> (r: Option<&Party>)
        ensures
            match r {
                Some(p) => self@.parties.contains_key(id.0) && self@.parties[id.0] == p@,
                None => !self@.parties.contains_key(id.0),
            },
    {
        self.parties.get(&id.0)
    }

    /// The chat of the party with identifier `id`.
    pub fn messages(&self, id: Snowflake) -> (r: Option<&Vec<Message>>)
        ensures
            match r {
                Some(m) => self@.parties.contains_key(id.0) && self@.parties[id.0].messages
                    == m@.map_values(|x: Message| x@),
                None => !self@.parties.contains_key(id.0),
            },
    {
        match self.parties.get(&id.0) {
            Some(p) => Some(&p.messages),
            None => None,
        }
    }

    /// Stores `party` under `id`, replacing any party stored there.
    pub fn insert_party(&mut self, id: Snowflake, party: Party)
        ensures
            final(self)@ == old(self)@.with_party(id.0, party@),
    {
        let ghost pv = party@;
        self.parties.insert(id.0, party);
        assert(final(self)@.parties =~= old(self)@.parties.insert(id.0, pv));
    }

    /// Creates a party of `owner` named `name` under a fresh identifier, and
    /// returns the identifier and a copy of the party.
    pub fn create_party(
        &mut self,
        owner: User,
        name: &str,
        generator: &mut snowflake::SnowflakeIdGenerator,
    ) -> (r: (Snowflake, Party))
        ensures
            r.1@.name == name@,
            r.1@.owner == owner@,
            r.1@.messages == Seq::<MessageView>::empty(),
            r.1@.video is None,
            final(self)@ == old(self)@.with_party(r.0.0, r.1@),
            generated_by(*old(generator), *final(generator), r.0),
    {
        let party = Party::new(owner, name);
        let id = Snowflake::generate(generator);
        let copy = party.clone();
        self.insert_party(id, party);
        (id, copy)
    }

    /// Deletes the party `id`; tells whether there was one.
    pub fn remove_party(&mut self, id: Snowflake) -> (removed: bool)
        ensures
            removed == old(self)@.parties.contains_key(id.0),
            final(self)@ == old(self)@.without_party(id.0),
    {
        let r = self.parties.remove(&id.0);
        assert(final(self)@.parties =~= old(self)@.parties.remove(id.0));
        r.is_some()
    }

    /// Takes the party `id` out of the table, for an update that puts it back.
    fn take_party(&mut self, id: Snowflake) -> (r: Option<Party>)
        ensures
            match r {
                Some(p) => old(self)@.parties.contains_key(id.0) && old(self)@.parties[id.0] == p@
                    && final(self)@ == old(self)@.without_party(id.0),
                None => !old(self)@.parties.contains_key(id.0) && final(self)@ == old(self)@,
            },
    {
        let r = self.parties.remove(&id.0);
        assert(final(self)@.parties =~= old(self)@.parties.remove(id.0));
        if r.is_none() {
            assert(final(self)@.parties =~= old(self)@.parties);
        }
        r
    }

    /// Appends a message by `author` with a fresh identifier to the chat of the
    /// party `id`, and returns a copy of it; `None`, and no change, when there
    /// is no such party.
    pub fn post_message(
        &mut self,
        id: Snowflake,
        content: String,
        author: User,
        generator: &mut snowflake::SnowflakeIdGenerator,
    ) -> (r: Option<Message>)
        ensures
            match r {
                Some(m) => old(self)@.parties.contains_key(id.0) && m@.content == content@
                    && m@.author == author@ && final(self)@ == old(self)@.with_message(id.0, m@)
                    && generated_by(*old(generator), *final(generator), m.id)
                    && final(self)@.parties[id.0].messages == old(self)@.parties[id.0].messages.push(
                    m@,
                ) && final(self)@.parties[id.0].owner == old(self)@.parties[id.0].owner
                    && final(self)@.parties[id.0].name == old(self)@.parties[id.0].name
                    && final(self)@.parties[id.0].video == old(self)@.parties[id.0].video,
                None => !old(self)@.parties.contains_key(id.0) && final(self)@ == old(self)@
                    && *final(generator) == *old(generator),
            },
    {
        match self.take_party(id) {
            None => None,
            Some(mut party) => {
                let ghost before = party@;
                let message = Message::new(content, author, generator);
                let copy = message.clone();
                party.messages.push(message);
                assert(party@.messages =~= before.messages.push(copy@));
                self.insert_party(id, party);
                assert(final(self)@.parties =~= old(self)@.with_message(id.0, copy@).parties);
                Some(copy)
            },
        }
    }

    /// The chat message of the HTTP interface: when the party `id` exists, a
    /// new user named `author` (with a fresh identifier and the password "as")
    /// posts `content` there.
    pub fn create_message(
        &mut self,
        id: Snowflake,
        author: &str,
        content: String,
        generator: &mut snowflake::SnowflakeIdGenerator,
    ) -> (r: Option<Message>)
        ensures
            match r {
                Some(m) => old(self)@.parties.contains_key(id.0) && m@.content == content@
                    && m@.author.username == author@ && m@.author.hash_password == Private::Hidden(
                    "as"@,
                ) && final(self)@ == old(self)@.with_message(id.0, m@) && generated_two(
                    *old(generator),
                    *final(generator),
                    m@.author.id,
                    m.id,
                ),
                None => !old(self)@.parties.contains_key(id.0) && final(self)@ == old(self)@
                    && *final(generator) == *old(generator),
            },
    {
        if self.contains_party(id) {
            let user = User::new(author, "as", generator);
            let ghost middle = *generator;
            let ghost user_id = user.id;
            let r = self.post_message(id, content, user, generator);
            assert(generated_by(*old(generator), middle, user_id));
            r
        } else {
            None
        }
    }

    /// Sets the video of the party `id` to `video`; returns a copy of the
    /// updated party, or `None`, and no change, when there is no such party.
    fn set_video(&mut self, id: Snowflake, video: Option<Video>) -> (r: Option<Party>)
        ensures
            match r {
                Some(p) => old(self)@.parties.contains_key(id.0)
                    && final(self)@ == old(self)@.with_video(id.0, crate::party::video_view(video))
                    && final(self)@.parties[id.0] == p@,
                None => !old(self)@.parties.contains_key(id.0) && final(self)@ == old(self)@,
            },
    {
        match self.take_party(id) {
            None => None,
            Some(mut party) => {
                party.video = video;
                let copy = party.clone();
                self.insert_party(id, party);
                assert(final(self)@.parties =~= old(self)@.with_video(
                    id.0,
                    crate::party::video_view(video),
                ).parties);
                Some(copy)
            },
        }
    }

    /// Attaches the video at `video_url` to the party `id`.
    pub fn attach_video(&mut self, id: Snowflake, video_url: &str) -> (r: Option<Party>)
        ensures
            match r {
                Some(p) => old(self)@.parties.contains_key(id.0) && final(self)@ == old(
                    self,
                )@.with_video(id.0, Some(VideoView { video_url: video_url@ }))
                    && final(self)@.parties[id.0] == p@ && p@.video == Some(
                    VideoView { video_url: video_url@ },
                ) && p@.name == old(self)@.parties[id.0].name && p@.owner == old(
                    self,
                )@.parties[id.0].owner && p@.messages == old(self)@.parties[id.0].messages,
                None => !old(self)@.parties.contains_key(id.0) && final(self)@ == old(self)@,
            },
    {
        self.set_video(id, Some(Video::new(video_url)))
    }

    /// Removes the video of the party `id`.
    pub fn remove_video(&mut self, id: Snowflake) -> (r: Option<Party>)
        ensures
            match r {
                Some(p) => old(self)@.parties.contains_key(id.0) && final(self)@ == old(
                    self,
                )@.with_video(id.0, None) && final(self)@.parties[id.0] == p@ && p@.video is None
                    && p@.name == old(self)@.parties[id.0].name && p@.owner == old(
                    self,
                )@.parties[id.0].owner && p@.messages == old(self)@.parties[id.0].messages,
                None => !old(self)@.parties.contains_key(id.0) && final(self)@ == old(self)@,
            },
    {
        self.set_video(id, None)
    }
}

/// Checks a decoded token against the stored sessions: a token that could not
/// be decoded is refused with the decoder's message; otherwise the user of the
/// token's stored session is returned, or `Unauthorized`.
pub fn verify_user(decoded: Result<Session, String>, state: &AppState) -> (r: Result<User, AuthError>)
    ensures
        match decoded {
            Err(msg) => r matches Err(AuthError::InvalidToken(m)) && m@ == msg@,
            Ok(claims) => match state@.authenticate(claims) {
                Some(u) => r matches Ok(x) && x@ == u,
                None => r matches Err(AuthError::Unauthorized),
            },
        },
{
    match decoded {
        Err(msg) => Err(AuthError::InvalidToken(msg)),
        Ok(claims) => match state.authenticate(&claims) {
            Some(u) => Ok(u),
            None => Err(AuthError::Unauthorized),
        },
    }
}

/// The first element satisfying `p` of `s` extended by `x`.
proof fn lemma_first_where_push<A>(s: Seq<A>, p: spec_fn(A) -> bool, x: A)
    ensures
        first_where(s.push(x), p) == (match first_where(s, p) {
            Some(y) => Some(y),
            None => if p(x) {
                Some(x)
            } else {
                None
            },
        }),
    decreases s.len(),
{
    if s.len() > 0 {
        assert(s.push(x).drop_first() =~= s.drop_first().push(x));
        assert(s.push(x)[0] == s[0]);
        lemma_first_where_push(s.drop_first(), p, x);
        if p(s[0]) {
            assert(first_where(s.push(x), p) == Some(s[0]));
        } else {
            assert(first_where(s.push(x), p) == first_where(s.drop_first().push(x), p));
        }
    } else {
        assert(s.push(x).drop_first() =~= Seq::<A>::empty());
        assert(s.push(x)[0] == x);
        assert(first_where(s, p) is None);
        assert(first_where(s.push(x).drop_first(), p) is None);
        assert(s.push(x).len() == 1);
    }
}

/// No element of `s` satisfies `p` exactly when `first_where` finds none.
proof fn lemma_first_where_none<A>(s: Seq<A>, p: spec_fn(A) -> bool)
    ensures
        first_where(s, p) is None <==> forall|i: int| 0 <= i < s.len() ==> !p(#[trigger] s[i]),
    decreases s.len(),
{
    if s.len() > 0 {
        lemma_first_where_none(s.drop_first(), p);
        if first_where(s, p) is None {
            assert forall|i: int| 0 <= i < s.len() implies !p(#[trigger] s[i]) by {
                if i > 0 {
                    assert(s[i] == s.drop_first()[i - 1]);
                }
            }
        } else if !p(s[0]) {
            let j = choose|j: int| 0 <= j < s.drop_first().len() && p(#[trigger] s.drop_first()[j]);
            assert(s[j + 1] == s.drop_first()[j]);
        }
    }
}

/// The element that `first_where` finds satisfies `p` and is an element of `s`.
proof fn lemma_first_where_found<A>(s: Seq<A>, p: spec_fn(A) -> bool)
    ensures
        first_where(s, p) matches Some(y) ==> p(y) && s.contains(y),
    decreases s.len(),
{
    if s.len() > 0 && !p(s[0]) {
        lemma_first_where_found(s.drop_first(), p);
        if first_where(s, p) is Some {
            let y = first_where(s, p)->0;
            let j = choose|j: int| 0 <= j < s.drop_first().len() && s.drop_first()[j] == y;
            assert(s[j + 1] == y);
        }
    }
}

/// In the state after a new account whose identifiers were in no use, the
/// first session with the account's session identifier, and the first user
/// with its user identifier, are the new ones.
proof fn lemma_new_account_found(st: AppStateView, user: UserView, session: Session)
    requires
        forall|i: int| 0 <= i < st.sessions.len() ==> (#[trigger] st.sessions[i]).id != session.id,
        forall|i: int| 0 <= i < st.users.len() ==> (#[trigger] st.users[i]).id != user.id,
    ensures
        first_where(st.with_account(user, session).sessions, session_has_id(session.id)) == Some(
            session,
        ),
        first_where(st.with_account(user, session).users, user_has_id(user.id)) == Some(user),
{
    lemma_first_where_none(st.sessions, session_has_id(session.id));
    lemma_first_where_none(st.users, user_has_id(user.id));
    lemma_first_where_push(st.sessions, session_has_id(session.id), session);
    lemma_first_where_push(st.users, user_has_id(user.id), user);
}

/// After an account is registered, the claims of its first session
/// authenticate the new user, provided that neither the session's identifier
/// nor the user's was in use.
pub proof fn law_register_then_authenticate(st: AppStateView, user: UserView, session: Session)
    requires
        session.user_id == user.id,
        forall|i: int| 0 <= i < st.sessions.len() ==> (#[trigger] st.sessions[i]).id != session.id,
        forall|i: int| 0 <= i < st.users.len() ==> (#[trigger] st.users[i]).id != user.id,
    ensures
        st.with_account(user, session).authenticate(session) == Some(user),
{
    lemma_new_account_found(st, user, session);
}

/// Every stored user and session identifier precedes the generator.
pub open spec fn ids_precede(st: AppStateView, generator: snowflake::SnowflakeIdGenerator) -> bool {
    &&& forall|i: int| 0 <= i < st.users.len() ==> precedes(#[trigger] st.users[i].id, generator)
    &&& forall|i: int|
        0 <= i < st.sessions.len() ==> precedes(#[trigger] st.sessions[i].id, generator)
}

/// Every stored party key precedes the generator.
pub open spec fn party_keys_precede(
    st: AppStateView,
    generator: snowflake::SnowflakeIdGenerator,
) -> bool {
    forall|k: i64| #[trigger] st.parties.contains_key(k) ==> precedes(Snowflake(k), generator)
}

/// The premises under which a generator step gives an identifier that follows
/// all earlier ones: a well placed generator whose time field fits in 41 bits
/// and does not go backwards during the step.
pub open spec fn orderly_step(
    before: snowflake::SnowflakeIdGenerator,
    after: snowflake::SnowflakeIdGenerator,
) -> bool {
    &&& well_placed(before)
    &&& generator_counter(before) < 4096
    &&& 0 <= generator_time(before) <= generator_time(after) < 0x200_0000_0000
}

/// An account registered with identifiers from a generator that every stored
/// identifier precedes, while the generator's time field does not go
/// backwards, gets identifiers that are in no use: the claims of its first
/// session authenticate the new user and ask for its profile, and afterwards
/// every stored identifier still precedes the generator.
pub proof fn law_register_in_order_then_authenticate(
    st: AppStateView,
    before: snowflake::SnowflakeIdGenerator,
    after: snowflake::SnowflakeIdGenerator,
    user: UserView,
    session: Session,
)
    requires
        forall|middle: snowflake::SnowflakeIdGenerator|
            #[trigger] generated_by(before, middle, user.id) && generated_by(
                middle,
                after,
                session.id,
            ) ==> orderly_step(before, middle) && orderly_step(middle, after),
        ids_precede(st, before),
        generated_two(before, after, user.id, session.id),
        session.user_id == user.id,
    ensures
        st.with_account(user, session).authenticate(session) == Some(user),
        st.with_account(user, session).me(session) == Ok::<UserView, MeError>(user),
        ids_precede(st.with_account(user, session), after),
{
    let middle = choose|middle: snowflake::SnowflakeIdGenerator|
        #[trigger] generated_by(before, middle, user.id) && generated_by(middle, after, session.id);
    assert(orderly_step(before, middle) && orderly_step(middle, after));
    let next = st.with_account(user, session);
    assert forall|i: int| 0 <= i < st.users.len() implies (#[trigger] st.users[i]).id != user.id
        && precedes(st.users[i].id, after) by {
        law_generated_increases(before, middle, user.id, st.users[i].id);
        law_generated_increases(middle, after, session.id, st.users[i].id);
    }
    assert forall|i: int| 0 <= i < st.sessions.len() implies (
    #[trigger] st.sessions[i]).id != session.id && precedes(st.sessions[i].id, after) by {
        law_generated_increases(before, middle, user.id, st.sessions[i].id);
        law_generated_increases(middle, after, session.id, st.sessions[i].id);
    }
    law_generated_increases(before, middle, user.id, user.id);
    law_generated_increases(middle, after, session.id, user.id);
    assert forall|i: int| 0 <= i < next.users.len() implies precedes(
        #[trigger] next.users[i].id,
        after,
    ) by {
        if i < st.users.len() {
            assert(next.users[i] == st.users[i]);
        }
    }
    assert forall|i: int| 0 <= i < next.sessions.len() implies precedes(
        #[trigger] next.sessions[i].id,
        after,
    ) by {
        if i < st.sessions.len() {
            assert(next.sessions[i] == st.sessions[i]);
        }
    }
    law_register_then_authenticate(st, user, session);
    law_register_then_me(st, user, session);
}

/// A session opened with an identifier from a generator that every stored
/// identifier precedes, in an orderly step, has an identifier in no use, and
/// afterwards every stored identifier still precedes the generator.
pub proof fn law_session_in_order(
    st: AppStateView,
    before: snowflake::SnowflakeIdGenerator,
    after: snowflake::SnowflakeIdGenerator,
    session: Session,
)
    requires
        orderly_step(before, after),
        ids_precede(st, before),
        generated_by(before, after, session.id),
    ensures
        forall|i: int| 0 <= i < st.sessions.len() ==> (#[trigger] st.sessions[i]).id != session.id,
        ids_precede(st.with_session(session), after),
{
    let next = st.with_session(session);
    assert forall|i: int| 0 <= i < st.users.len() implies precedes(
        #[trigger] st.users[i].id,
        after,
    ) by {
        law_generated_increases(before, after, session.id, st.users[i].id);
    }
    assert forall|i: int| 0 <= i < st.sessions.len() implies (#[trigger] st.sessions[i]).id
        != session.id && precedes(st.sessions[i].id, after) by {
        law_generated_increases(before, after, session.id, st.sessions[i].id);
    }
    law_generated_increases(before, after, session.id, session.id);
    assert forall|i: int| 0 <= i < next.sessions.len() implies precedes(
        #[trigger] next.sessions[i].id,
        after,
    ) by {
        if i < st.sessions.len() {
            assert(next.sessions[i] == st.sessions[i]);
        }
    }
}

/// A party created under a key from a generator that every stored party key
/// precedes, in an orderly step, gets a key in no use, so no party is
/// replaced; afterwards every party key still precedes the generator.
pub proof fn law_create_party_fresh_key(
    st: AppStateView,
    before: snowflake::SnowflakeIdGenerator,
    after: snowflake::SnowflakeIdGenerator,
    id: Snowflake,
    party: PartyView,
)
    requires
        orderly_step(before, after),
        party_keys_precede(st, before),
        generated_by(before, after, id),
    ensures
        !st.parties.contains_key(id.0),
        st.with_party(id.0, party).parties.remove(id.0) == st.parties,
        party_keys_precede(st.with_party(id.0, party), after),
{
    if st.parties.contains_key(id.0) {
        law_generated_increases(before, after, id, Snowflake(id.0));
    }
    assert forall|k: i64| #[trigger] st.with_party(id.0, party).parties.contains_key(k) implies precedes(
        Snowflake(k),
        after,
    ) by {
        law_generated_increases(before, after, id, Snowflake(k));
    }
    assert(st.with_party(id.0, party).parties.remove(id.0) =~= st.parties);
}

/// Once the claims of a token authenticate a user, they keep authenticating
/// that user (and asking for the same profile) after accounts or sessions are
/// added and after any party change.
pub proof fn law_authentication_survives(
    st: AppStateView,
    claims: Session,
    user: UserView,
    session: Session,
    id: i64,
    party: PartyView,
    video: Option<VideoView>,
    message: MessageView,
)
    ensures
        st.authenticate(claims) is Some ==> st.with_account(user, session).authenticate(claims)
            == st.authenticate(claims) && st.with_session(session).authenticate(claims)
            == st.authenticate(claims),
        st.me(claims) is Ok ==> st.with_account(user, session).me(claims) == st.me(claims)
            && st.with_session(session).me(claims) == st.me(claims),
        st.with_party(id, party).authenticate(claims) == st.authenticate(claims),
        st.without_party(id).authenticate(claims) == st.authenticate(claims),
        st.with_video(id, video).authenticate(claims) == st.authenticate(claims),
        st.with_message(id, message).authenticate(claims) == st.authenticate(claims),
{
    lemma_first_where_push(st.sessions, session_has_id(claims.id), session);
    lemma_first_where_push(st.users, user_has_id(claims.user_id), user);
    if first_where(st.sessions, session_has_id(claims.id)) is Some {
        let stored = first_where(st.sessions, session_has_id(claims.id))->0;
        lemma_first_where_push(st.users, user_has_id(stored.user_id), user);
    }
}

/// After an account is registered, the claims of its first session ask for
/// the profile of the new user, provided that neither identifier was in use.
pub proof fn law_register_then_me(st: AppStateView, user: UserView, session: Session)
    requires
        session.user_id == user.id,
        forall|i: int| 0 <= i < st.sessions.len() ==> (#[trigger] st.sessions[i]).id != session.id,
        forall|i: int| 0 <= i < st.users.len() ==> (#[trigger] st.users[i]).id != user.id,
    ensures
        st.with_account(user, session).me(session) == Ok::<UserView, MeError>(user),
{
    lemma_new_account_found(st, user, session);
}

/// After an account is registered, logging in with its password succeeds; it
/// logs in as the new user unless an older user has the same hidden password.
pub proof fn law_register_then_login(
    st: AppStateView,
    user: UserView,
    session: Session,
    password: Seq<char>,
)
    requires
        user.hash_password == Private::Hidden(password),
    ensures
        st.with_account(user, session).login_user(password) is Some,
        (forall|i: int|
            0 <= i < st.users.len() ==> (#[trigger] st.users[i]).hash_password != Private::Hidden(
                password,
            )) ==> st.with_account(user, session).login_user(password) == Some(user),
{
    lemma_first_where_push(st.users, user_has_password(password), user);
    lemma_first_where_none(st.users, user_has_password(password));
}

/// A session opened by logging in authenticates the user it was opened for,
/// provided that the session's identifier was not in use and that no two users
/// share an identifier.
pub proof fn law_login_then_authenticate(st: AppStateView, password: Seq<char>, session: Session)
    requires
        st.login_user(password) matches Some(u) && session.user_id == u.id,
        forall|i: int| 0 <= i < st.sessions.len() ==> (#[trigger] st.sessions[i]).id != session.id,
        forall|i: int, j: int|
            0 <= i < j < st.users.len() ==> (#[trigger] st.users[i]).id != (#[trigger] st.users[j]).id,
    ensures
        st.with_session(session).authenticate(session) == st.login_user(password),
{
    let u = st.login_user(password)->0;
    lemma_first_where_none(st.sessions, session_has_id(session.id));
    lemma_first_where_push(st.sessions, session_has_id(session.id), session);
    lemma_first_where_found(st.users, user_has_password(password));
    lemma_first_where_found(st.users, user_has_id(u.id));
    let k = choose|k: int| 0 <= k < st.users.len() && st.users[k] == u;
    assert(st.users[k] == u);
    assert(first_where(st.users, user_has_id(u.id)) is Some) by {
        lemma_first_where_none(st.users, user_has_id(u.id));
        assert(user_has_id(u.id)(st.users[k]));
    }
    let w = first_where(st.users, user_has_id(u.id))->0;
    let m = choose|m: int| 0 <= m < st.users.len() && st.users[m] == w;
    assert(st.users[m] == w);
    if m != k {
        if m < k {
            assert(st.users[m].id != st.users[k].id);
        } else {
            assert(st.users[k].id != st.users[m].id);
        }
    }
}

/// Registering accounts and logging in only ever append users and sessions.
pub proof fn law_accounts_only_grow(st: AppStateView, user: UserView, session: Session)
    ensures
        st.with_account(user, session).users.take(st.users.len() as int) == st.users,
        st.with_account(user, session).sessions.take(st.sessions.len() as int) == st.sessions,
        st.with_session(session).users == st.users,
        st.with_session(session).sessions.take(st.sessions.len() as int) == st.sessions,
{
    assert(st.with_account(user, session).users.take(st.users.len() as int) =~= st.users);
    assert(st.with_account(user, session).sessions.take(st.sessions.len() as int) =~= st.sessions);
    assert(st.with_session(session).sessions.take(st.sessions.len() as int) =~= st.sessions);
}

/// Removing a party that was just created under an unused identifier gives
/// back the state from before.
pub proof fn law_create_then_remove_party(st: AppStateView, id: i64, party: PartyView)
    requires
        !st.parties.contains_key(id),
    ensures
        st.with_party(id, party).without_party(id) == st,
{
    assert(st.with_party(id, party).without_party(id).parties =~= st.parties);
    assert(st.with_party(id, party).without_party(id) =~= st);
}

/// After a party is created or replaced, looking it up gives it back, and the
/// other parties are untouched.
pub proof fn law_party_lookup_after_insert(st: AppStateView, id: i64, party: PartyView, other: i64)
    requires
        other != id,
    ensures
        st.with_party(id, party).parties.contains_key(id),
        st.with_party(id, party).parties[id] == party,
        st.with_party(id, party).parties.contains_key(other) == st.parties.contains_key(other),
        st.with_party(id, party).parties[other] == st.parties[other],
{
}

/// Removing a video right after attaching one leaves the party as removing the
/// video alone does, and attaching keeps the party's name, owner and chat.
pub proof fn law_attach_then_remove_video(st: AppStateView, id: i64, video: VideoView)
    requires
        st.parties.contains_key(id),
    ensures
        st.with_video(id, Some(video)).with_video(id, None) == st.with_video(id, None),
        st.with_video(id, Some(video)).parties[id].name == st.parties[id].name,
        st.with_video(id, Some(video)).parties[id].owner == st.parties[id].owner,
        st.with_video(id, Some(video)).parties[id].messages == st.parties[id].messages,
{
    assert(st.with_video(id, Some(video)).with_video(id, None).parties =~= st.with_video(
        id,
        None,
    ).parties);
    assert(st.with_video(id, Some(video)).with_video(id, None) =~= st.with_video(id, None));
}

/// Posting a message changes only the chat of its party: the earlier chat
/// stays as a prefix and the new message comes last, while the party's name,
/// owner and video, the other parties, the users and the sessions stay.
pub proof fn law_post_keeps_chat(st: AppStateView, id: i64, message: MessageView)
    requires
        st.parties.contains_key(id),
    ensures
        st.with_message(id, message).parties[id].messages.len() == st.parties[id].messages.len()
            + 1,
        st.with_message(id, message).parties[id].messages.take(
            st.parties[id].messages.len() as int,
        ) == st.parties[id].messages,
        st.with_message(id, message).parties[id].messages.last() == message,
        st.with_message(id, message).parties[id].video == st.parties[id].video,
        st.with_message(id, message).parties[id].owner == st.parties[id].owner,
        st.with_message(id, message).parties[id].name == st.parties[id].name,
        st.with_message(id, message).parties.dom() == st.parties.dom(),
        forall|other: i64|
            other != id && #[trigger] st.parties.contains_key(other) ==> st.with_message(
                id,
                message,
            ).parties[other] == st.parties[other],
        st.with_message(id, message).users == st.users,
        st.with_message(id, message).sessions == st.sessions,
{
    assert(st.with_message(id, message).parties.dom() =~= st.parties.dom());
    assert(st.with_message(id, message).parties[id].messages.take(
        st.parties[id].messages.len() as int,
    ) =~= st.parties[id].messages);
}

/// Setting the video of a party stores exactly the given video (or none),
/// whatever video the party had before, and changes nothing else: the party's
/// name, owner and chat, the other parties, the users and the sessions stay.
pub proof fn law_video_update_sets_video(st: AppStateView, id: i64, video: Option<VideoView>)
    requires
        st.parties.contains_key(id),
    ensures
        st.with_video(id, video).parties.contains_key(id),
        st.with_video(id, video).parties[id].video == video,
        st.with_video(id, video).parties[id].name == st.parties[id].name,
        st.with_video(id, video).parties[id].owner == st.parties[id].owner,
        st.with_video(id, video).parties[id].messages == st.parties[id].messages,
        st.with_video(id, video).parties.dom() == st.parties.dom(),
        forall|other: i64|
            other != id && #[trigger] st.parties.contains_key(other) ==> st.with_video(
                id,
                video,
            ).parties[other] == st.parties[other],
        st.with_video(id, video).users == st.users,
        st.with_video(id, video).sessions == st.sessions,
{
    assert(st.with_video(id, video).parties.dom() =~= st.parties.dom());
}

/// Attaching a video to a party that already plays another one replaces it:
/// the party then plays the new video, and a second attach of the same video
/// changes nothing.
pub proof fn law_attach_replaces_video(
    st: AppStateView,
    id: i64,
    first: VideoView,
    second: VideoView,
)
    requires
        st.parties.contains_key(id),
    ensures
        st.with_video(id, Some(first)).with_video(id, Some(second)).parties[id].video == Some(
            second,
        ),
        st.with_video(id, Some(first)).with_video(id, Some(second)) == st.with_video(
            id,
            Some(second),
        ),
        st.with_video(id, Some(second)).with_video(id, Some(second)) == st.with_video(
            id,
            Some(second),
        ),
{
    assert(st.with_video(id, Some(first)).with_video(id, Some(second)).parties =~= st.with_video(
        id,
        Some(second),
    ).parties);
    assert(st.with_video(id, Some(first)).with_video(id, Some(second)) =~= st.with_video(
        id,
        Some(second),
    ));
    assert(st.with_video(id, Some(second)).with_video(id, Some(second)).parties =~= st.with_video(
        id,
        Some(second),
    ).parties);
    assert(st.with_video(id, Some(second)).with_video(id, Some(second)) =~= st.with_video(
        id,
        Some(second),
    ));
}

} // verus!

use crate::snowflake::{generated_by, Snowflake};
use crate::user::{User, UserView};
use vstd::prelude::*;

verus! {

/// A chat message posted in a party.
#[derive(Debug)]
pub struct Message {
    pub id: Snowflake,
    pub content: String,
    pub author: User,
}

/// The mathematical content of a `Message`.
pub struct MessageView {
    pub id: Snowflake,
    pub content: Seq<char>,
    pub author: UserView,
}

impl View for Message {
    type V = MessageView;

    open spec fn view(&self) -> MessageView {
        MessageView { id: self.id, content: self.content@, author: self.author@ }
    }
}

impl Message {
    /// A message with a fresh identifier.
    pub fn new(content: String, author: User, generator: &mut snowflake::SnowflakeIdGenerator) -> (m: Message)
        ensures
            m@.content == content@,
            m@.author == author@,
            generated_by(*old(generator), *final(generator), m.id),
    {
        let id = Snowflake::generate(generator);
        Message { id, content, author }
    }
}

impl Clone for Message {
    fn clone(&self) -> (r: Message)
        ensures
            r@ == self@,
    {
        Message { id: self.id, content: self.content.clone(), author: self.author.clone() }
    }
}

} // verus!

use crate::message::{Message, MessageView};
use crate::user::{User, UserView};
use crate::video::{Video, VideoView};
use vstd::prelude::*;

verus! {

/// A watch party: its owner, its chat and the video it plays.
#[derive(Debug)]
pub struct Party {
    pub name: String,
    pub owner: User,
    pub messages: Vec<Message>,
    pub video: Option<Video>,
}

/// The mathematical content of a `Party`.
pub struct PartyView {
    pub name: Seq<char>,
    pub owner: UserView,
    pub messages: Seq<MessageView>,
    pub video: Option<VideoView>,
}

pub open spec fn video_view(v: Option<Video>) -> Option<VideoView> {
    match v {
        Some(v) => Some(v@),
        None => None,
    }
}

impl View for Party {
    type V = PartyView;

    open spec fn view(&self) -> PartyView {
        PartyView {
            name: self.name@,
            owner: self.owner@,
            messages: self.messages@.map_values(|m: Message| m@),
            video: video_view(self.video),
        }
    }
}

impl Party {
    /// A party with no messages and no video.
    pub fn new(owner: User, name: &str) -> (p: Party)
        ensures
            p@.name == name@,
            p@.owner == owner@,
            p@.messages == Seq::<MessageView>::empty(),
            p@.video is None,
    {
        let p = Party { name: name.to_owned(), owner, messages: Vec::new(), video: None };
        assert(p@.messages =~= Seq::<MessageView>::empty());
        p
    }
}

/// A copy of a list of messages.
pub fn copy_messages(messages: &Vec<Message>) -> (r: Vec<Message>)
    ensures
        r@.map_values(|m: Message| m@) == messages@.map_values(|m: Message| m@),
{
    let mut r: Vec<Message> = Vec::new();
    let mut i: usize = 0;
    while i < messages.len()
        invariant
            i <= messages.len(),
            r@.len() == i,
            forall|j: int| 0 <= j < i ==> (#[trigger] r@[j])@ == messages@[j]@,
        decreases messages.len() - i,
    {
        r.push(messages[i].clone());
        i = i + 1;
    }
    assert(r@.map_values(|m: Message| m@) =~= messages@.map_values(|m: Message| m@));
    r
}

impl Clone for Party {
    fn clone(&self) -> (r: Party)
        ensures
            r@ == self@,
    {
        let video = match &self.video {
            Some(v) => Some(v.clone()),
            None => None,
        };
        Party {
            name: self.name.clone(),
            owner: self.owner.clone(),
            messages: copy_messages(&self.messages),
            video,
        }
    }
}

} // verus!

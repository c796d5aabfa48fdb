use crate::message::Message;
use crate::party::Party;
use crate::snowflake::{generated_by, Snowflake};
use crate::state::AppState;
use crate::user::User;
use vstd::prelude::*;

verus! {

/// What a connected client asks for over the socket, with the party
/// identifier of the event already parsed.
pub enum GatewayEvent {
    /// Post `content` in the chat of `party`.
    Message { party: Snowflake, content: String },
    /// Join the room of `party`.
    Join { party: Snowflake },
    /// Pass a playback event (seek, pause, resume) on to the room of `party`.
    Event { party: Snowflake },
}

/// What the socket layer is to do after an event.
pub enum GatewayAction {
    /// Send the posted message to the others in the party's room.
    EmitMessage(Message),
    /// Leave all rooms, join the party's room and send the party back.
    Joined(Party),
    /// Pass the event's data on to the others in the party's room.
    Forward,
    /// The party does not exist; nothing is sent.
    PartyNotFound,
}

/// Decides what an event of the client logged in as `user` does to the state
/// and what is sent in return.
pub fn handle_event(
    state: &mut AppState,
    user: &User,
    event: GatewayEvent,
    generator: &mut snowflake::SnowflakeIdGenerator,
) -> (action: GatewayAction)
    ensures
        match event {
            GatewayEvent::Message { party, content } => match action {
                GatewayAction::EmitMessage(m) => old(state)@.parties.contains_key(party.0)
                    && m@.content == content@ && m@.author == user@ && final(state)@ == old(
                    state,
                )@.with_message(party.0, m@) && generated_by(
                    *old(generator),
                    *final(generator),
                    m.id,
                ),
                GatewayAction::PartyNotFound => !old(state)@.parties.contains_key(party.0)
                    && final(state)@ == old(state)@ && *final(generator) == *old(generator),
                _ => false,
            },
            GatewayEvent::Join { party } => final(state)@ == old(state)@ && *final(generator)
                == *old(generator) && match action {
                GatewayAction::Joined(p) => old(state)@.parties.contains_key(party.0) && old(
                    state,
                )@.parties[party.0] == p@,
                GatewayAction::PartyNotFound => !old(state)@.parties.contains_key(party.0),
                _ => false,
            },
            GatewayEvent::Event { party } => final(state)@ == old(state)@ && *final(generator)
                == *old(generator) && match action {
                GatewayAction::Forward => old(state)@.parties.contains_key(party.0),
                GatewayAction::PartyNotFound => !old(state)@.parties.contains_key(party.0),
                _ => false,
            },
        },
{
    match event {
        GatewayEvent::Message { party, content } => {
            match state.post_message(party, content, user.clone(), generator) {
                Some(m) => GatewayAction::EmitMessage(m),
                None => GatewayAction::PartyNotFound,
            }
        },
        GatewayEvent::Join { party } => match state.party(party) {
            Some(p) => GatewayAction::Joined(p.clone()),
            None => GatewayAction::PartyNotFound,
        },
        GatewayEvent::Event { party } => {
            if state.contains_party(party) {
                GatewayAction::Forward
            } else {
                GatewayAction::PartyNotFound
            }
        },
    }
}

} // verus!

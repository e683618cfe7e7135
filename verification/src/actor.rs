use vstd::prelude::*;

verus! {

/// What an actor can be asked.
#[derive(Clone, Copy, Debug, PartialEq, Eq, Structural)]
pub enum ActorMessage {
    /// Asks for an identifier that no earlier answer gave.
    GetUniqueId,
}

/// Hands out identifiers: each one larger than all it handed out before.
#[derive(Debug)]
pub struct Actor {
    next_id: u64,
}

impl Actor {
    /// The identifier handed out last; 0 where none was handed out yet.
    pub closed spec fn last_id(&self) -> u64 {
        self.next_id
    }

    /// An actor that has handed out no identifier.
    pub fn new() -> (actor: Self)
        ensures
            actor.last_id() == 0,
    {
        Actor { next_id: 0 }
    }

    /// Whether an identifier is left to hand out.
    pub fn has_next(&self) -> (left: bool)
        ensures
            left == (self.last_id() < u64::MAX),
    {
        self.next_id < u64::MAX
    }

    /// Answers `message`: the identifier that follows the last one.
    pub fn handle_message(&mut self, message: ActorMessage) -> (reply: u64)
        requires
            old(self).last_id() < u64::MAX,
        ensures
            reply == old(self).last_id() + 1,
            final(self).last_id() == reply,
    {
        match message {
            ActorMessage::GetUniqueId => {
                self.next_id += 1;
                self.next_id
            },
        }
    }
}

} // verus!

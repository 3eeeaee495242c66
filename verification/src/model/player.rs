//! A player character: a name and the room the player is in.
use vstd::prelude::*;
use crate::model::ids::RoomId;

verus! {

pub struct Player {
    name: String,
    current_room: RoomId,
}

pub struct PlayerView {
    pub name: Seq<char>,
    pub current_room: RoomId,
}

impl View for Player {
    type V = PlayerView;

    closed spec fn view(&self) -> PlayerView {
        PlayerView { name: self.name@, current_room: self.current_room }
    }
}

impl Player {
    pub fn new(name: String, starting_room: RoomId) -> (player: Player)
        ensures
            player@ == (PlayerView { name: name@, current_room: starting_room }),
    {
        Player { name, current_room: starting_room }
    }

    pub fn name(&self) -> (s: &str)
        ensures
            s@ == self@.name,
    {
        self.name.as_str()
    }

    pub fn current_room(&self) -> (room: &RoomId)
        ensures
            *room == self@.current_room,
    {
        &self.current_room
    }

    /// Moves the player into another room.
    pub fn move_to(&mut self, destination_room_id: &RoomId)
        ensures
            final(self)@ == (PlayerView { current_room: *destination_room_id, ..old(self)@ }),
    {
        self.current_room = *destination_room_id;
    }
}

} // verus!

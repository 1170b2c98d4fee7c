//! The state of the dungeon game: the player, the room, and the newest
//! messages, with a flag that says that something has changed since the last
//! paint.

use vstd::prelude::*;

verus! {

/// The number of messages that the game keeps.
pub const MAX_MESSAGES: usize = 5;

/// The health that the player starts with.
pub const FULL_HEALTH: i32 = 100;

/// The message of a turn that leaves the health at a multiple of twenty.
pub const COLD_PRESENCE: &'static str = "You feel a cold presence...";

/// The texts of a sequence of messages.
pub open spec fn message_texts(messages: Seq<&'static str>) -> Seq<Seq<char>> {
    Seq::new(messages.len(), |i: int| messages[i]@)
}

/// What a `GameState` stands for.
pub struct GameView {
    pub health: int,
    pub level: int,
    pub room: nat,
    /// The messages, oldest first.
    pub messages: Seq<Seq<char>>,
    pub dirty: bool,
}

impl GameView {
    /// The health is not negative and no more than `MAX_MESSAGES` messages are
    /// kept.
    pub open spec fn wf(self) -> bool {
        &&& 0 <= self.health <= i32::MAX
        &&& self.messages.len() <= MAX_MESSAGES
    }

    /// The state after `msg` has been added: it is the newest message, the
    /// oldest one has left if there were `MAX_MESSAGES` already, and the state
    /// is dirty.
    pub open spec fn add_message(self, msg: Seq<char>) -> GameView {
        let all = self.messages.push(msg);
        GameView {
            messages: if all.len() > MAX_MESSAGES {
                all.drop_first()
            } else {
                all
            },
            dirty: true,
            ..self
        }
    }

    /// The state after one turn: the player loses one point of health, but not
    /// below zero; a health that is then a multiple of twenty brings a message;
    /// and a change of health makes the state dirty.
    pub open spec fn turn(self) -> GameView {
        let health = if self.health > 0 {
            self.health - 1
        } else {
            0
        };
        let hurt = GameView { health, ..self };
        let told = if health % 20 == 0 {
            hurt.add_message(COLD_PRESENCE@)
        } else {
            hurt
        };
        GameView { dirty: told.dirty || health != self.health, ..told }
    }

    /// The state after it has been painted.
    pub open spec fn painted(self) -> GameView {
        GameView { dirty: false, ..self }
    }
}

/// The state of the game.
pub struct GameState {
    player_health: i32,
    player_level: i32,
    current_room: usize,
    messages: Vec<&'static str>,
    dirty: bool,
}

impl View for GameState {
    type V = GameView;

    closed spec fn view(&self) -> GameView {
        GameView {
            health: self.player_health as int,
            level: self.player_level as int,
            room: self.current_room as nat,
            messages: message_texts(self.messages@),
            dirty: self.dirty,
        }
    }
}

impl GameState {
    /// The state at the start of the game: full health, the first level, the
    /// first room and the three opening messages, to be painted.
    pub fn new() -> (state: Self)
        ensures
            state@.health == FULL_HEALTH,
            state@.level == 1,
            state@.room == 0,
            state@.messages == seq![
                "You enter the ancient crypt..."@,
                "The door slams shut behind you!"@,
                "You hear strange noises..."@,
            ],
            state@.dirty,
            state@.wf(),
    {
        let mut messages: Vec<&'static str> = Vec::new();
        messages.push("You enter the ancient crypt...");
        messages.push("The door slams shut behind you!");
        messages.push("You hear strange noises...");
        let state = GameState {
            player_health: FULL_HEALTH,
            player_level: 1,
            current_room: 0,
            messages,
            dirty: true,
        };
        assert(state@.messages =~= seq![
            "You enter the ancient crypt..."@,
            "The door slams shut behind you!"@,
            "You hear strange noises..."@,
        ]);
        state
    }

    /// Adds `msg` as the newest message and marks the state as dirty.
    pub fn add_message(&mut self, msg: &'static str)
        requires
            old(self)@.wf(),
        ensures
            final(self)@ == old(self)@.add_message(msg@),
            final(self)@.wf(),
    {
        self.messages.push(msg);
        if self.messages.len() > MAX_MESSAGES {
            self.messages.remove(0);
        }
        self.dirty = true;
        assert(self@.messages =~= old(self)@.add_message(msg@).messages);
    }

    /// Plays one turn.
    pub fn simulate_turn(&mut self)
        requires
            old(self)@.wf(),
        ensures
            final(self)@ == old(self)@.turn(),
            final(self)@.wf(),
    {
        let prev_health = self.player_health;
        if self.player_health > 0 {
            self.player_health = self.player_health - 1;
        }
        if self.player_health % 20 == 0 {
            self.add_message(COLD_PRESENCE);
        }
        if prev_health != self.player_health {
            self.dirty = true;
        }
    }

    /// Marks the state as painted.
    pub fn mark_painted(&mut self)
        ensures
            final(self)@ == old(self)@.painted(),
    {
        self.dirty = false;
    }

    /// Whether something has changed since the state was last painted.
    pub fn is_dirty(&self) -> (dirty: bool)
        ensures
            dirty == self@.dirty,
    {
        self.dirty
    }

    /// The health of the player.
    pub fn player_health(&self) -> (health: i32)
        ensures
            health == self@.health,
    {
        self.player_health
    }

    /// The level of the player.
    pub fn player_level(&self) -> (level: i32)
        ensures
            level == self@.level,
    {
        self.player_level
    }

    /// The room that the player is in.
    pub fn current_room(&self) -> (room: usize)
        ensures
            room == self@.room,
    {
        self.current_room
    }

    /// The messages, oldest first.
    pub fn messages(&self) -> (messages: &Vec<&'static str>)
        ensures
            message_texts(messages@) == self@.messages,
    {
        &self.messages
    }
}

} // verus!

//! The store of each session's current game state, keyed by player identity.
use std::collections::HashMap;
use vstd::prelude::*;

use crate::game_state::GameState;
use crate::player::{Player, PlayerTrait};

verus! {

broadcast use vstd::std_specs::hash::group_hash_axioms;

/// Each session's current state. It validates nothing: callers check a state
/// before they put it.
pub struct SessionStore {
    states: HashMap<u128, GameState>,
}

impl View for SessionStore {
    type V = Map<u128, GameState>;

    closed spec fn view(&self) -> Map<u128, GameState> {
        self.states@
    }
}

impl SessionStore {
    /// A store with no sessions.
    pub fn new() -> (r: SessionStore)
        ensures
            r@ == Map::<u128, GameState>::empty(),
    {
        SessionStore { states: HashMap::new() }
    }

    /// The current state of `key`'s session, if it has one.
    pub fn get(&self, key: &Player) -> (r: Option<GameState>)
        ensures
            r == (if self@.contains_key(key@) {
                Some(self@[key@])
            } else {
                None
            }),
    {
        let id = key.get_id();
        match self.states.get(&id) {
            Some(state) => Some(*state),
            None => None,
        }
    }

    /// Makes `state` the current state of `key`'s session.
    pub fn put(&mut self, key: &Player, state: GameState)
        ensures
            final(self)@ == old(self)@.insert(key@, state),
    {
        let id = key.get_id();
        self.states.insert(id, state);
    }
}

} // verus!

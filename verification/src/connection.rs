//! Players who come, press keys and go.

use std::collections::hash_map::Entry;
use vstd::prelude::*;

use crate::keys::{key_of, pressed, read_key, Key};
use crate::player::{App, Player};
use crate::server::{lemma_client_changed, AppServer};

verus! {

broadcast use vstd::std_specs::hash::group_hash_axioms;

impl<T> AppServer<T> {
    /// Gives a new connection its number.
    pub fn new_client(&mut self) -> (id: usize)
        requires
            old(self).id < usize::MAX,
        ensures
            id == old(self).id,
            final(self).id == id + 1,
            final(self).clients == old(self).clients,
            final(self).app == old(self).app,
    {
        let id = self.id;
        self.id = self.id + 1;
        id
    }

    /// Opens the session of the connection `id`: a new player sits down at
    /// the given terminal.
    pub fn channel_open_session(&mut self, id: usize, terminal: T)
        requires
            old(self).wf(),
        ensures
            final(self).wf(),
            final(self).players() == old(self).players().insert(id, Player::fresh()),
            final(self).terminals() == old(self).terminals().insert(id, terminal),
            final(self).id == old(self).id,
            final(self).app == old(self).app,
    {
        self.clients.insert(id, (terminal, App::new()));
        proof {
            assert(self.players() =~= old(self).players().insert(id, Player::fresh()));
            assert(self.terminals() =~= old(self).terminals().insert(id, terminal));
            assert forall|other: usize| self.players().contains_key(other) implies (
            #[trigger] self.players()[other]).wf() by {
                if other != id {
                    assert(old(self).players()[other].wf());
                }
            }
        }
    }

    /// Forgets the connection `id`.
    pub fn disconnect(&mut self, id: usize)
        requires
            old(self).wf(),
        ensures
            final(self).wf(),
            final(self).players() == old(self).players().remove(id),
            final(self).terminals() == old(self).terminals().remove(id),
            final(self).id == old(self).id,
            final(self).app == old(self).app,
    {
        self.clients.remove(&id);
        proof {
            assert(self.players() =~= old(self).players().remove(id));
            assert(self.terminals() =~= old(self).terminals().remove(id));
            assert forall|other: usize| self.players().contains_key(other) implies (
            #[trigger] self.players()[other]).wf() by {
                assert(old(self).players()[other].wf());
            }
        }
    }

    /// Whether the connection `id` ends with the given key: the player quits,
    /// or is out of the game.
    pub open spec fn key_ends_session(self, id: usize, key: Key) -> bool {
        key == Key::Quit || !self.players()[id].can_play
    }

    /// Whether the given key can be taken from the connection `id`. Except
    /// for quitting, the player must be there.
    pub open spec fn key_is_defined(self, id: usize, key: Key) -> bool {
        key == Key::Quit || {
            &&& self.players().contains_key(id)
            &&& key == Key::MoreDice ==> self.players()[id].amount < usize::MAX
        }
    }

    /// Tells whether the given bytes can be taken from the connection `id`.
    pub fn can_take(&self, id: usize, data: &[u8]) -> (can: bool)
        ensures
            can == self.key_is_defined(id, key_of(data@)),
    {
        match read_key(data) {
            Key::Quit => true,
            Key::MoreDice => match self.clients.get(&id) {
                Some(client) => client.1.amount < usize::MAX,
                None => false,
            },
            _ => self.clients.contains_key(&id),
        }
    }

    /// Takes the bytes of a key from the connection `id`. Returns whether the
    /// connection is to be closed; its player is gone then.
    pub fn data(&mut self, id: usize, data: &[u8]) -> (close: bool)
        requires
            old(self).wf(),
            old(self).key_is_defined(id, key_of(data@)),
        ensures
            final(self).wf(),
            close == old(self).key_ends_session(id, key_of(data@)),
            close ==> {
                &&& final(self).players() == old(self).players().remove(id)
                &&& final(self).terminals() == old(self).terminals().remove(id)
            },
            !close ==> {
                &&& final(self).players() == old(self).players().insert(
                    id,
                    pressed(old(self).players()[id], key_of(data@)),
                )
                &&& final(self).terminals() == old(self).terminals()
            },
            final(self).id == old(self).id,
            final(self).app == old(self).app,
    {
        let key = read_key(data);
        let ghost before = self.clients@;
        let mut close = false;
        match key {
            Key::Quit => {
                close = true;
            },
            _ => {
                if let Entry::Occupied(entry) = self.clients.entry(id) {
                    let client = entry.into_mut();
                    proof {
                        assert(client.1@ == old(self).players()[id]);
                    }
                    client.1.press(key);
                    close = !client.1.can_play;
                }
                proof {
                    lemma_client_changed(before, self.clients@, id);
                    assert(old(self).players()[id].wf());
                    assert forall|other: usize| self.players().contains_key(other) implies (
                    #[trigger] self.players()[other]).wf() by {
                        assert(old(self).players()[other].wf());
                    }
                }
            },
        }
        if close {
            self.disconnect(id);
            proof {
                assert(self.players() =~= old(self).players().remove(id));
                assert(self.terminals() =~= old(self).terminals().remove(id));
            }
        }
        close
    }
}

} // verus!

//! The language-server clients, one per file extension.
use vstd::prelude::*;

use super::client::LspClient;
use crate::text::{chars_eq, str_chars};

verus! {

/// The running clients, each with the file extension it serves (each
/// extension once).
pub struct LspManager {
    pub clients: Vec<(String, LspClient)>,
}

/// Some client serves `ext`.
pub open spec fn serves(clients: Seq<(String, LspClient)>, ext: Seq<char>) -> bool {
    exists|i: int| 0 <= i < clients.len() && (#[trigger] clients[i]).0@ == ext
}

impl LspManager {
    pub fn new() -> (m: Self)
        ensures
            m.clients@.len() == 0,
    {
        LspManager { clients: Vec::new() }
    }

    /// Language support comes from installed extensions only: nothing is
    /// started for an extension without a server command.
    pub fn ensure_started(&mut self, _ext: &str, _workspace: &str)
        ensures
            final(self).clients == old(self).clients,
    {
    }

    /// The index of the client serving `ext`.
    pub fn client_index(&self, ext: &str) -> (r: Option<usize>)
        ensures
            match r {
                Some(i) => i < self.clients@.len() && self.clients@[i as int].0@ == ext@,
                None => !serves(self.clients@, ext@),
            },
    {
        let want = str_chars(ext);
        let mut i: usize = 0;
        while i < self.clients.len()
            invariant
                i <= self.clients@.len(),
                want@ == ext@,
                forall|j: int| 0 <= j < i ==> (#[trigger] self.clients@[j]).0@ != ext@,
            decreases self.clients.len() - i,
        {
            if chars_eq(&str_chars(self.clients[i].0.as_str()), &want) {
                return Some(i);
            }
            i += 1;
        }
        None
    }

    /// The client serving `ext`.
    pub fn get(&self, ext: &str) -> (r: Option<&LspClient>)
        ensures
            match r {
                Some(c) => exists|i: int| 0 <= i < self.clients@.len() && (#[trigger] self.clients@[i]).0@ == ext@
                    && *c == self.clients@[i].1,
                None => !serves(self.clients@, ext@),
            },
    {
        match self.client_index(ext) {
            Some(i) => Some(&self.clients[i].1),
            None => None,
        }
    }

    /// Whether a server is to be started for `ext` with a command from an
    /// extension: only when no client serves it yet.
    pub fn needs_client(&self, ext: &str) -> (b: bool)
        ensures
            b == !serves(self.clients@, ext@),
    {
        self.client_index(ext).is_none()
    }

    /// Adds the client of a server started for `ext`, unless a client already
    /// serves it.
    pub fn insert_client(&mut self, ext: String, client: LspClient)
        ensures
            serves(old(self).clients@, ext@) ==> final(self).clients == old(self).clients,
            !serves(old(self).clients@, ext@) ==> final(self).clients@ == old(self).clients@.push((ext, client)),
    {
        if self.client_index(ext.as_str()).is_none() {
            self.clients.push((ext, client));
        }
    }

    /// Stops every client; servers start again when an extension asks.
    pub fn restart_all(&mut self)
        ensures
            final(self).clients@.len() == 0,
    {
        self.clients = Vec::new();
    }
}

} // verus!

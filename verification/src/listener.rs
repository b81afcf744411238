//! The listener of a named pipe, which has one server end ready at a time.
use vstd::prelude::*;

use crate::startup::{in_words, IoFailure};

verus! {

/// A listener of a named pipe. `S` is a server end that a client can connect to.
#[derive(Debug, PartialEq, Eq)]
pub struct LocalListener<S> {
    /// The name of the pipe.
    pub pipe_name: String,
    /// The server end that is ready for the next client.
    pub pending: Option<S>,
}

impl<S> LocalListener<S> {
    /// A listener with its first server end.
    pub fn bind(pipe_name: String, first: S) -> (r: Self)
        ensures
            r == (LocalListener { pipe_name, pending: Some(first) }),
    {
        LocalListener { pipe_name, pending: Some(first) }
    }

    /// Takes the server end for the next client. While a client is waited for,
    /// there is none for another one.
    pub fn accept(&mut self) -> (r: Result<S, IoFailure>)
        ensures
            final(self).pipe_name == old(self).pipe_name,
            final(self).pending is None,
            match old(self).pending {
                Some(server) => r matches Ok(taken) && taken == server,
                None => r matches Err(failure) && failure@ == in_words(
                    "named-pipe accept already in progress"@,
                ),
            },
    {
        match self.pending.take() {
            Some(server) => Ok(server),
            None => Err(IoFailure::other("named-pipe accept already in progress")),
        }
    }

    /// Makes the next server end ready, once a client has connected to the one
    /// before it.
    pub fn accepted(&mut self, next: S)
        ensures
            *final(self) == (LocalListener { pipe_name: old(self).pipe_name, pending: Some(next) }),
    {
        self.pending = Some(next);
    }
}

} // verus!

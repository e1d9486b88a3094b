//! The accumulator that gathers the dependencies of one load.

use vstd::prelude::*;
use renege::Token;
use crate::token::{always, always_valid, combine, is_always_valid, is_valid};

verus! {

/// Follows when an observation becomes invalid: holds one token that is
/// valid while every dependency composed into it is. One tracker serves
/// one load of one artifact, nested loads of what it refers to with it.
pub struct Tracker {
    token: Token,
}

impl View for Tracker {
    type V = Token;

    closed spec fn view(&self) -> Token {
        self.token
    }
}

impl Tracker {
    /// A tracker without dependencies: its token is valid for ever.
    pub fn new() -> (tracker: Self)
        ensures
            always_valid(tracker@),
    {
        Tracker { token: always() }
    }

    /// The token that stands for everything composed so far.
    pub fn get(&self) -> (token: Token)
        ensures
            token == self@,
    {
        self.token
    }

    /// Replaces the token.
    pub fn set(&mut self, token: Token)
        ensures
            final(self)@ == token,
    {
        self.token = token;
    }

    /// Composes a dependency into the tracker: afterwards its token is
    /// valid only while the token before and `token` both are. Composing
    /// the token that is valid for ever changes nothing, and a tracker
    /// without dependencies takes over `token` as it is.
    pub fn compose(&mut self, token: Token)
        ensures
            always_valid(token) ==> final(self)@ == old(self)@,
            always_valid(old(self)@) ==> final(self)@ == token,
            always_valid(final(self)@) <==> always_valid(old(self)@) && always_valid(token),
    {
        self.token = combine(self.token, token);
    }

    /// Whether nothing composed into the tracker has been invalidated so
    /// far. A tracker without dependencies is always valid.
    pub fn is_valid(&self) -> (valid: bool)
        ensures
            always_valid(self@) ==> valid,
    {
        is_valid(&self.token)
    }

    /// Whether the tracker has no dependency that could ever be
    /// invalidated.
    pub fn is_always_valid(&self) -> (always: bool)
        ensures
            always == always_valid(self@),
    {
        is_always_valid(&self.token)
    }
}

impl Default for Tracker {
    fn default() -> (tracker: Self)
        ensures
            always_valid(tracker@),
    {
        Tracker::new()
    }
}

} // verus!

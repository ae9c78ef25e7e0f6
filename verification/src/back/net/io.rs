//! Tokens, by which the host tells its sockets apart.

use vstd::prelude::*;

use crate::errors::Error;

verus! {

/// The name that a socket has in the host's poller.
#[derive(Clone, Copy, Debug, PartialEq, Eq, Structural)]
pub struct Token(pub usize);

/// Hands out tokens, each one once.
pub struct Io {
    /// An accumulator used to give us unique tokens.
    token_accumulator: usize,
}

impl Io {
    /// The number of tokens handed out so far, which is also the next token.
    pub closed spec fn issued(&self) -> nat {
        self.token_accumulator as nat
    }

    /// An allocator that has handed out no token yet. It never fails.
    pub fn new() -> (r: Result<Self, Error>)
        ensures
            r matches Ok(io) && io.issued() == 0,
    {
        Ok(Io { token_accumulator: 0 })
    }

    /// Whether there is a token left to hand out.
    pub fn has_token_left(&self) -> (left: bool)
        ensures
            left == (self.issued() < usize::MAX),
    {
        self.token_accumulator < usize::MAX
    }

    /// Generates a unique token: the number of tokens handed out before it.
    pub fn create_token(&mut self) -> (token: Token)
        requires
            old(self).issued() < usize::MAX,
        ensures
            token.0 == old(self).issued(),
            final(self).issued() == old(self).issued() + 1,
    {
        let token = Token(self.token_accumulator);
        self.token_accumulator += 1;
        token
    }
}

} // verus!

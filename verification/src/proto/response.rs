//! Numeric replies of a server.

use crate::text;
use vstd::prelude::*;

verus! {

/// A numeric reply.
#[allow(non_camel_case_types)]
#[derive(Debug, PartialEq, Eq, Clone, Copy, Structural)]
pub enum Response {
    /// The names of users in a channel.
    RPL_NAMREPLY,
    /// The message of the day has ended.
    RPL_ENDOFMOTD,
    /// There is no message of the day.
    ERR_NOMOTD,
    /// The requested nickname is not one.
    ERR_ERRONEOUSNICKNAME,
    /// The requested nickname is taken.
    ERR_NICKNAMEINUSE,
    /// Another reply, by its number.
    Other(u16),
}

impl Response {
    /// The number of a reply.
    pub open spec fn number(self) -> nat {
        match self {
            Response::RPL_NAMREPLY => 353,
            Response::RPL_ENDOFMOTD => 376,
            Response::ERR_NOMOTD => 422,
            Response::ERR_ERRONEOUSNICKNAME => 432,
            Response::ERR_NICKNAMEINUSE => 433,
            Response::Other(n) => n as nat,
        }
    }

    /// A number as it is sent: with at least three digits.
    pub open spec fn digits(self) -> Seq<char> {
        let n = self.number();
        if n < 10 {
            seq!['0', '0'] + text::digits(n)
        } else if n < 100 {
            seq!['0'] + text::digits(n)
        } else {
            text::digits(n)
        }
    }

    /// The reply with the number `n`.
    pub fn from_number(n: u16) -> (r: Response)
        ensures
            r.number() == n,
            r is Other ==> n != 353 && n != 376 && n != 422 && n != 432 && n != 433,
    {
        if n == 353 {
            Response::RPL_NAMREPLY
        } else if n == 376 {
            Response::RPL_ENDOFMOTD
        } else if n == 422 {
            Response::ERR_NOMOTD
        } else if n == 432 {
            Response::ERR_ERRONEOUSNICKNAME
        } else if n == 433 {
            Response::ERR_NICKNAMEINUSE
        } else {
            Response::Other(n)
        }
    }

    /// The number of this reply.
    pub fn to_number(&self) -> (r: u16)
        ensures
            r == self.number(),
    {
        match self {
            Response::RPL_NAMREPLY => 353,
            Response::RPL_ENDOFMOTD => 376,
            Response::ERR_NOMOTD => 422,
            Response::ERR_ERRONEOUSNICKNAME => 432,
            Response::ERR_NICKNAMEINUSE => 433,
            Response::Other(n) => *n,
        }
    }

    /// The number of this reply as it is sent.
    pub fn to_digits(&self) -> (r: String)
        ensures
            r@ == self.digits(),
    {
        let n = self.to_number();
        let mut r = String::new();
        if n < 100 {
            r.push('0');
        }
        if n < 10 {
            r.push('0');
        }
        r.append(text::digits_of(n as u64).as_str());
        assert(r@ =~= self.digits());
        r
    }
}

} // verus!

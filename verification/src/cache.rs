//! A cache for one token that is good for a limited time.
//!
//! The cache is a value of its own, handed to whoever needs it. It is read
//! with the time of the reading and serves its token while the token has
//! more than a margin of its life left; after that the holder fetches a
//! new token and stores it with the time of the fetch. Times are
//! nanoseconds on a clock that never goes back.

use vstd::prelude::*;

verus! {

/// The life of a stored token: 59 minutes.
pub const TOKEN_LIFETIME: u128 = 3_540_000_000_000;

/// A token with no more than this left of its life is no longer served:
/// 60 seconds.
pub const REFRESH_MARGIN: u128 = 60_000_000_000;

/// The time at which a token stored at `now` runs out.
pub open spec fn expiry(now: u128) -> u128 {
    if now + TOKEN_LIFETIME > u128::MAX {
        u128::MAX
    } else {
        (now + TOKEN_LIFETIME) as u128
    }
}

/// What a cache serves at `now`: its token, if it holds one that runs out
/// later than a margin from now.
pub open spec fn served(entry: Option<(Seq<char>, u128)>, now: u128) -> Option<Seq<char>> {
    match entry {
        Some((token, expires_at)) => if now + REFRESH_MARGIN < expires_at {
            Some(token)
        } else {
            None
        },
        None => None,
    }
}

/// A cache for one token.
pub struct TokenCache {
    entry: Option<(String, u128)>,
}

impl View for TokenCache {
    type V = Option<(Seq<char>, u128)>;

    /// The token held, if any, and the time at which it runs out.
    closed spec fn view(&self) -> Option<(Seq<char>, u128)> {
        match self.entry {
            Some((token, expires_at)) => Some((token@, expires_at)),
            None => None,
        }
    }
}

impl TokenCache {
    /// A cache that holds nothing.
    pub fn new() -> (cache: TokenCache)
        ensures
            cache@ is None,
    {
        TokenCache { entry: None }
    }

    /// The token to use at `now`, if the cache holds one that is fresh
    /// enough; nothing if a new one must be fetched.
    pub fn lookup(&self, now: u128) -> (token: Option<String>)
        ensures
            match token {
                Some(token) => served(self@, now) == Some(token@),
                None => served(self@, now) is None,
            },
    {
        match &self.entry {
            Some((token, expires_at)) => {
                if now < *expires_at && *expires_at - now > REFRESH_MARGIN {
                    Some(token.clone())
                } else {
                    None
                }
            },
            None => None,
        }
    }

    /// Stores a token fetched at `now` in place of what the cache held.
    pub fn store(&mut self, token: String, now: u128)
        ensures
            final(self)@ == Some((token@, expiry(now))),
    {
        self.entry = Some((token, now.saturating_add(TOKEN_LIFETIME)));
    }
}

/// A stored token is served for its life less the margin, and not after.
pub proof fn lemma_token_is_served_while_fresh(token: Seq<char>, stored: u128, now: u128)
    requires
        stored <= now,
        stored + TOKEN_LIFETIME <= u128::MAX,
    ensures
        served(Some((token, expiry(stored))), now) == if now - stored < TOKEN_LIFETIME
            - REFRESH_MARGIN {
            Some(token)
        } else {
            None
        },
{
}

} // verus!

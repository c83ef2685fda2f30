use vstd::prelude::*;

verus! {

/// Why a request failed authentication.
#[derive(Debug, Clone, Copy, PartialEq, Eq, Structural)]
pub enum AuthError {
    /// No usable `Bearer <token>` cookie came with the request.
    NoAuthTokenCookie,
    /// The token's expiry has passed.
    CookieExpired,
    /// The token did not decode or its signature did not match.
    InvalidJwt,
}

/// Credential hashing hook; credentials arrive already hashed, so it does
/// nothing.
pub fn hash_password() {
}

/// Credential check hook; credentials arrive already hashed, so it does
/// nothing.
pub fn verify_hash() {
}

/// The whitespace-separated words of a string, in order.
pub uninterp spec fn words_of(s: Seq<char>) -> Seq<Seq<char>>;

pub open spec fn views_of(v: Seq<String>) -> Seq<Seq<char>> {
    v.map_values(|w: String| w@)
}

/// Relies on str::split_whitespace: the words of `s` in order, which depend
/// on its characters alone.
#[verifier::external_body]
fn split_words(s: &str) -> (r: Vec<String>)
    ensures
        views_of(r@) == words_of(s@),
{
    s.split_whitespace().map(|w| w.to_string()).collect()
}

/// The token of a cookie's words: the second word, when the first is
/// `Bearer`.
pub open spec fn bearer_of(words: Seq<Seq<char>>) -> Option<Seq<char>> {
    if words.len() >= 2 && words[0] == "Bearer"@ {
        Some(words[1])
    } else {
        None
    }
}

/// Picks the token out of a cookie already split into words.
pub fn bearer_token(words: &Vec<String>) -> (r: Result<String, AuthError>)
    ensures
        match r {
            Ok(t) => bearer_of(views_of(words@)) == Some(t@),
            Err(e) => bearer_of(views_of(words@)).is_none() && e == AuthError::NoAuthTokenCookie,
        },
{
    let scheme = "Bearer".to_owned();
    if words.len() >= 2 && words[0] == scheme {
        assert(views_of(words@)[0] == words@[0]@);
        Ok(words[1].clone())
    } else {
        proof {
            if words@.len() >= 2 {
                assert(views_of(words@)[0] == words@[0]@);
            }
        }
        Err(AuthError::NoAuthTokenCookie)
    }
}

/// The token of an authorization cookie of the form `Bearer <token>`.
pub fn parse_auth_cookie(cookie: &str) -> (r: Result<String, AuthError>)
    ensures
        match r {
            Ok(t) => bearer_of(words_of(cookie@)) == Some(t@),
            Err(e) => bearer_of(words_of(cookie@)).is_none() && e == AuthError::NoAuthTokenCookie,
        },
{
    let words = split_words(cookie);
    bearer_token(&words)
}

/// The claims a session token carries: expiry and issue time (seconds since
/// the Unix epoch) and the author's email.
pub struct Claims {
    pub exp: usize,
    pub iat: usize,
    pub email: String,
}

impl Claims {
    /// Claims issued at `now` that expire `duration` seconds later; nothing
    /// when `now` or `duration` is negative or the expiry does not fit.
    pub fn issue(email: String, now: i64, duration: i64) -> (r: Option<Claims>)
        ensures
            match r {
                Some(c) => {
                    &&& 0 <= now && 0 <= duration && now + duration <= usize::MAX
                    &&& c.iat == now
                    &&& c.exp == now + duration
                    &&& c.email == email
                },
                None => now < 0 || duration < 0 || now + duration > usize::MAX,
            },
    {
        if now < 0 || duration < 0 {
            return None;
        }
        let iat = now as u64;
        let d = duration as u64;
        if iat > usize::MAX as u64 || d > usize::MAX as u64 - iat {
            return None;
        }
        Some(Claims { exp: (iat + d) as usize, iat: iat as usize, email })
    }
}

/// Relies on std's SystemTime::now, chrono's `From<SystemTime>` for
/// `DateTime<Utc>` and DateTime::timestamp: the current time in whole seconds
/// since the Unix epoch, negative for a clock set before 1970. Nothing is
/// promised of its value.
#[verifier::external_body]
fn unix_now() -> (r: i64) {
    chrono::DateTime::<chrono::Utc>::from(std::time::SystemTime::now()).timestamp()
}

/// Claims for `email` issued now and valid for `duration` seconds. The clock
/// decides the issue time: whatever it reads, a result spans exactly
/// `duration`, and a negative duration gives none. `Claims::issue` states the
/// outcome for each clock value.
pub fn claims_now(email: String, duration: i64) -> (r: Option<Claims>)
    ensures
        r matches Some(c) ==> 0 <= duration && c.exp == c.iat + duration && c.email == email,
        duration < 0 ==> r.is_none(),
{
    let now = unix_now();
    Claims::issue(email, now, duration)
}

} // verus!

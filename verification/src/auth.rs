//! Dashboard authentication: session cookies, session tokens and admin
//! password hashes.

use vstd::prelude::*;
use crate::text::{
    chars_of, concat_str, first_non_white, has_prefix, hex_prefix, hex_text, is_white,
    last_non_white_end, lemma_split_concat,
    lemma_split_nonempty, lemma_trim_subrange, matches_at, split_on, string_from_range,
    trim_bounds, trim_range, trim_seq,
};

verus! {

/// The value of the first `;`-separated cookie that, once trimmed, starts with `session=`.
pub open spec fn session_in(parts: Seq<Seq<char>>) -> Option<Seq<char>>
    decreases parts.len(),
{
    if parts.len() == 0 {
        None
    } else {
        let t = trim_seq(parts[0]);
        if has_prefix(t, "session="@) {
            Some(t.skip(8))
        } else {
            session_in(parts.drop_first())
        }
    }
}

/// The session token carried by a `Cookie` header value.
pub open spec fn session_cookie(header: Seq<char>) -> Option<Seq<char>> {
    session_in(split_on(header, ';'))
}

proof fn lemma_session_in_concat(a: Seq<Seq<char>>, b: Seq<Seq<char>>)
    ensures
        session_in(a + b) == match session_in(a) {
            Some(x) => Some(x),
            None => session_in(b),
        },
    decreases a.len(),
{
    if a.len() > 0 {
        lemma_session_in_concat(a.drop_first(), b);
        assert((a + b).drop_first() =~= a.drop_first() + b);
        assert((a + b)[0] == a[0]);
    } else {
        assert(a + b =~= b);
    }
}

/// The session token of a `Cookie` header value: the rest of the first
/// `;`-separated, trimmed cookie that starts with `session=`.
pub fn extract_session_cookie(header: &str) -> (r: Option<String>)
    ensures
        match (r, session_cookie(header@)) {
            (Some(s), Some(t)) => s@ == t,
            (None, None) => true,
            _ => false,
        },
{
    let cs = chars_of(header);
    let prefix = chars_of("session=");
    proof {
        reveal_strlit("session=");
    }
    let ghost whole = cs@;
    let mut start: usize = 0;
    let mut i: usize = 0;
    assert(cs@.take(0) =~= Seq::<char>::empty());
    while i <= cs.len()
        invariant
            whole == cs@,
            whole == header@,
            prefix@ == "session="@,
            prefix@.len() == 8,
            start <= i <= cs.len(),
            split_on(cs@.take(i as int), ';').len() >= 1,
            split_on(cs@.take(i as int), ';').last() == cs@.subrange(start as int, i as int),
            session_in(split_on(cs@.take(i as int), ';').drop_last()) is None,
        decreases cs.len() + 1 - i,
    {
        let ghost parts = split_on(cs@.take(i as int), ';');
        let at_end = i == cs.len();
        if at_end || cs[i] == ';' {
            let (a, b) = trim_bounds(&cs, start, i);
            let ghost t = cs@.subrange(a as int, b as int);
            let ghost last = parts.last();
            proof {
                lemma_trim_subrange(cs@, start as int, i as int);
                assert(parts =~= parts.drop_last() + seq![last]);
                lemma_session_in_concat(parts.drop_last(), seq![last]);
                assert(trim_seq(last) == t);
                assert(seq![last][0] == last);
                assert(seq![last].drop_first() =~= Seq::<Seq<char>>::empty());
                assert(session_in(seq![last]) == if has_prefix(t, "session="@) {
                    Some(t.skip(8))
                } else {
                    session_in(Seq::<Seq<char>>::empty())
                });
                assert(session_in(parts) == session_in(seq![last]));
                if !at_end {
                    assert(whole =~= cs@.take(i as int) + seq![';'] + cs@.skip(i + 1));
                    lemma_split_concat(cs@.take(i as int), ';', cs@.skip(i + 1));
                    lemma_session_in_concat(parts, split_on(cs@.skip(i + 1), ';'));
                } else {
                    assert(cs@.take(i as int) =~= whole);
                }
            }
            if b - a >= 8 && matches_at(&cs, &prefix, a) {
                proof {
                    assert(t.subrange(0, 8) =~= cs@.subrange(a as int, a + 8));
                    assert(has_prefix(t, "session="@));
                    assert(t.skip(8) =~= cs@.subrange(a + 8, b as int));
                    assert(session_cookie(whole) == Some(t.skip(8)));
                }
                return Some(string_from_range(&cs, a + 8, b));
            }
            proof {
                if has_prefix(t, "session="@) {
                    assert(t.subrange(0, 8) =~= cs@.subrange(a as int, a + 8));
                    assert(false);
                }
                assert(session_in(parts) is None);
            }
            if at_end {
                return None;
            }
            proof {
                assert(cs@.take(i + 1).drop_last() =~= cs@.take(i as int));
                assert(split_on(cs@.take(i + 1), ';') == parts.push(seq![]));
                assert(split_on(cs@.take(i + 1), ';').drop_last() =~= parts);
                assert(cs@.subrange(i + 1, i + 1) =~= Seq::<char>::empty());
            }
            start = i + 1;
        } else {
            proof {
                assert(cs@.take(i + 1).drop_last() =~= cs@.take(i as int));
                lemma_split_nonempty(cs@.take(i as int), ';');
                let p2 = split_on(cs@.take(i + 1), ';');
                assert(p2 == parts.update(parts.len() - 1, parts.last().push(cs@[i as int])));
                assert(p2.drop_last() =~= parts.drop_last());
                assert(p2.last() =~= cs@.subrange(start as int, i + 1));
            }
        }
        i = i + 1;
    }
    None
}

/// The `Set-Cookie` value that opens a session with `token` for a day.
pub fn session_set_cookie(token: &str) -> (s: String)
    ensures
        s@ == "session="@ + token@ + "; HttpOnly; Secure; SameSite=Lax; Path=/; Max-Age=86400"@,
{
    let a = concat_str("session=", token);
    concat_str(a.as_str(), "; HttpOnly; Secure; SameSite=Lax; Path=/; Max-Age=86400")
}

/// A string without the separator is split into itself alone.
proof fn lemma_split_without_sep(s: Seq<char>, sep: char)
    requires
        forall|i: int| 0 <= i < s.len() ==> s[i] != sep,
    ensures
        split_on(s, sep) == seq![s],
    decreases s.len(),
{
    if s.len() == 0 {
        assert(s =~= Seq::<char>::empty());
    } else {
        let p = s.drop_last();
        lemma_split_without_sep(p, sep);
        assert(s.last() != sep);
        assert(p.push(s.last()) =~= s);
        assert(seq![p].update(0, p.push(s.last())) =~= seq![s]);
    }
}

/// Law: a browser that sends back the session cookie it was given (`session=`
/// followed by the token) is recognised by that token, for any token without
/// `;` or white space, as the hexadecimal tokens of `generate_token` are.
pub proof fn law_session_cookie_round_trip(token: Seq<char>)
    requires
        forall|i: int| 0 <= i < token.len() ==> token[i] != ';' && !is_white(#[trigger] token[i]),
    ensures
        session_cookie("session="@ + token) == Some(token),
{
    reveal_strlit("session=");
    let s = "session="@ + token;
    assert forall|i: int| 0 <= i < s.len() implies s[i] != ';' && !is_white(s[i]) by {
        if i >= 8 {
            assert(s[i] == token[i - 8]);
        }
    }
    lemma_split_without_sep(s, ';');
    assert(first_non_white(s, 0, s.len() as int) == 0);
    assert(last_non_white_end(s, 0, s.len() as int) == s.len());
    assert(trim_seq(s) =~= s);
    assert(s.subrange(0, 8) =~= "session="@);
    assert(s.skip(8) =~= token);
    assert(seq![s].drop_first() =~= Seq::<Seq<char>>::empty());
}

/// The `Set-Cookie` value that ends a session.
pub fn session_clear_cookie() -> (s: &'static str)
    ensures
        s@ == "session=; Max-Age=0; Path=/; HttpOnly; SameSite=Lax"@,
{
    "session=; Max-Age=0; Path=/; HttpOnly; SameSite=Lax"
}

/// Lifetime of a dashboard session, in seconds.
pub const SESSION_TTL_SECS: i64 = 86400;

/// Thirty-two random bytes from the operating system's generator
/// (`TryRng::try_fill_bytes` on `SysRng`); `None` where it fails. Nothing is
/// stated of the bytes.
#[verifier::external_body]
fn random_bytes_32() -> Option<[u8; 32]> {
    let mut buf = [0u8; 32];
    match rand::TryRng::try_fill_bytes(&mut rand::rngs::SysRng, &mut buf) {
        Ok(()) => Some(buf),
        Err(_) => None,
    }
}

/// A new session token: thirty-two random bytes in lower-case hexadecimal;
/// `None` where the system's random generator fails.
pub fn generate_token() -> (t: Option<String>)
    ensures
        t matches Some(s) ==> exists|b: Seq<u8>| b.len() == 32 && s@ == hex_text(b),
{
    match random_bytes_32() {
        Some(bytes) => {
            let s = hex_prefix(&bytes, 32);
            assert(bytes@.take(32) =~= bytes@);
            Some(s)
        },
        None => None,
    }
}

/// What Argon2 verification (`PasswordHash::new(hash)` then
/// `Argon2::default().verify_password`) answers for `password` and `hash`:
/// `None` where `hash` is not a valid PHC string, otherwise whether the password matches.
pub uninterp spec fn argon2_verify(password: Seq<char>, hash: Seq<char>) -> Option<bool>;

/// Hashes a password with default Argon2 parameters and a fresh random salt
/// (`Argon2::default().hash_password`); `None` where hashing fails. The
/// hash verifies the password it was made from.
#[verifier::external_body]
fn argon2_hash(password: &str) -> (r: Option<String>)
    ensures
        r matches Some(h) ==> argon2_verify(password@, h@) == Some(true),
{
    match argon2::PasswordHasher::hash_password(&argon2::Argon2::default(), password.as_bytes()) {
        Ok(h) => Some(h.to_string()),
        Err(_) => None,
    }
}

/// Whether `hash` parses as a PHC password hash string (`PasswordHash::new`).
pub uninterp spec fn phc_valid(hash: Seq<char>) -> bool;

/// Whether `hash` parses as a PHC password hash string (`PasswordHash::new`).
#[verifier::external_body]
fn parse_phc(hash: &str) -> (b: bool)
    ensures
        b == phc_valid(hash@),
{
    argon2::password_hash::phc::PasswordHash::new(hash).is_ok()
}

/// Verifies a password against a stored hash: `None` exactly where the
/// hash does not parse.
#[verifier::external_body]
fn argon2_check(password: &str, hash: &str) -> (r: Option<bool>)
    ensures
        r == argon2_verify(password@, hash@),
        r is Some == phc_valid(hash@),
{
    match argon2::password_hash::phc::PasswordHash::new(hash) {
        Ok(parsed) => Some(
            argon2::PasswordVerifier::verify_password(
                &argon2::Argon2::default(),
                password.as_bytes(),
                &parsed,
            ).is_ok(),
        ),
        Err(_) => None,
    }
}

/// The Argon2 hash of a password, with a fresh salt; `None` where hashing fails.
pub fn hash_password(password: &str) -> (r: Option<String>)
    ensures
        r matches Some(h) ==> argon2_verify(password@, h@) == Some(true),
{
    argon2_hash(password)
}

/// Whether `password` matches a stored hash; `None` where the hash is malformed.
pub fn check_password(password: &str, hash: &str) -> (r: Option<bool>)
    ensures
        r is None <==> !phc_valid(hash@),
        r matches Some(b) ==> Some(b) == argon2_verify(password@, hash@),
{
    if !parse_phc(hash) {
        return None;
    }
    Some(verify_password(password, hash))
}

/// Whether `password` matches a well-formed stored hash.
pub fn verify_password(password: &str, hash: &str) -> (b: bool)
    requires
        phc_valid(hash@),
    ensures
        Some(b) == argon2_verify(password@, hash@),
{
    match argon2_check(password, hash) {
        Some(b) => b,
        None => false,
    }
}

/// The row stored for a new session.
#[derive(Debug, Clone)]
pub struct SessionRow {
    pub token: String,
    pub created_at: i64,
    pub expires_at: i64,
    pub last_used: i64,
    pub ip_address: String,
}

/// The row of a session opened at `now` for `ttl_secs` seconds: created and
/// last used now, expiring `ttl_secs` later.
pub fn session_row(token: String, ip: String, now: i64, ttl_secs: i64) -> (r: SessionRow)
    requires
        i64::MIN <= now + ttl_secs <= i64::MAX,
    ensures
        r.token@ == token@,
        r.ip_address@ == ip@,
        r.created_at == now,
        r.last_used == now,
        r.expires_at == now + ttl_secs,
{
    SessionRow { token, created_at: now, expires_at: now + ttl_secs, last_used: now, ip_address: ip }
}

/// Whether a session expiring at `expires_at` is still valid at `now`.
pub fn session_live(expires_at: i64, now: i64) -> (b: bool)
    ensures
        b == (expires_at > now),
{
    expires_at > now
}

/// Marker that a request carries a valid session.
#[derive(Debug, Clone, Copy)]
pub struct AuthGuard;

/// Body of a login request.
#[derive(Debug, Clone)]
pub struct LoginRequest {
    pub password: String,
}

/// Whether an admin exists and whether the caller is logged in.
#[derive(Debug, Clone, Copy)]
pub struct AuthStatus {
    pub admin_exists: bool,
    pub logged_in: bool,
}

/// An error answered by the dashboard: its message and, optionally, an HTTP status code.
#[derive(Debug, Clone)]
pub struct AppError {
    pub message: String,
    pub code: Option<u16>,
}

impl AppError {
    /// An error with the default status code.
    pub fn new(error: String) -> (e: AppError)
        ensures
            e.message@ == error@,
            e.code is None,
    {
        AppError { message: error, code: None }
    }

    /// An error with the given status code.
    pub fn with_code(error: String, code: u16) -> (e: AppError)
        ensures
            e.message@ == error@,
            e.code == Some(code),
    {
        AppError { message: error, code: Some(code) }
    }

    /// The status code answered: the given one, 500 otherwise.
    pub fn status(&self) -> (c: u16)
        ensures
            c == match self.code {
                Some(x) => x,
                None => 500,
            },
    {
        match self.code {
            Some(x) => x,
            None => 500,
        }
    }
}

} // verus!

//! HMI session tokens: their identifiers, text forms, expiration and the
//! checks made when a client presents one.
use crate::hex::{
    hex_bytes, hex_decode, hex_encode, hex_text, lemma_hex_bytes_len, lemma_hex_roundtrip,
    lemma_hex_text_ascii,
};
use crate::text::{chars_of, push_str, string_of, sub_chars};
use vstd::prelude::*;
use vstd::string::StringSliceAdditionalSpecFns;
use vstd::utf8::{
    encode_utf8, encode_utf8_decode_utf8, encode_utf8_valid_utf8, is_ascii_chars,
    is_ascii_chars_encode_utf8, is_char_boundary, is_char_boundary_iff_not_is_continuation_byte,
};

verus! {

/// Mode of a token that may write.
pub const TOKEN_MODE_NORMAL: u8 = 1;

/// Mode of a token that may only read.
pub const TOKEN_MODE_READONLY: u8 = 2;

/// The prefix of the full text form of a token identifier.
pub open spec fn token_prefix() -> Seq<char> {
    seq!['t', 'o', 'k', 'e', 'n', ':']
}

/// A token identifier: 16 random bytes and a salt text.
pub struct TokenId {
    u: Vec<u8>,
    salt: String,
}

/// The model of a [`TokenId`].
pub struct TokenIdModel {
    pub uuid: Seq<u8>,
    pub salt: Seq<char>,
}

impl View for TokenId {
    type V = TokenIdModel;

    closed spec fn view(&self) -> TokenIdModel {
        TokenIdModel { uuid: self.u@, salt: self.salt@ }
    }
}

/// Why a token identifier text was refused.
#[derive(PartialEq, Eq, Structural, Debug, Clone, Copy)]
pub enum TokenIdError {
    /// the text is too short, or lacks the `token:` prefix
    InvalidFormat,
    /// the first 32 bytes are not hexadecimal
    InvalidHex,
}

/// Whether a text may be cut after its 32nd byte, where it is long enough to
/// be a token identifier.
pub open spec fn cut_ok(c: Seq<char>) -> bool {
    encode_utf8(c).len() >= 48 ==> is_char_boundary(encode_utf8(c), 32)
}

/// The short text form of an identifier: the hexadecimal text of its bytes,
/// then its salt.
pub open spec fn short_text(id: TokenIdModel) -> Seq<char> {
    hex_text(id.uuid) + id.salt
}

impl TokenId {
    /// The identifier bytes are a UUID: 16 bytes.
    #[verifier::type_invariant]
    spec fn inv(self) -> bool {
        self.u@.len() == 16
    }

    /// An identifier of the given 16 bytes (a UUID) and salt.
    pub fn new(u: Vec<u8>, salt: String) -> (r: TokenId)
        requires
            u@.len() == 16,
        ensures
            r@.uuid == u@,
            r@.salt == salt@,
    {
        TokenId { u, salt }
    }

    /// The bytes of the identifier.
    pub fn uuid_bytes(&self) -> (r: &Vec<u8>)
        ensures
            r@ == self@.uuid,
            r@.len() == 16,
    {
        proof {
            use_type_invariant(self);
        }
        &self.u
    }

    /// The salt of the identifier.
    pub fn salt(&self) -> (r: &str)
        ensures
            r@ == self@.salt,
    {
        self.salt.as_str()
    }

    /// Whether two identifiers are the same.
    pub fn same_as(&self, other: &TokenId) -> (r: bool)
        ensures
            r == (self@ == other@),
    {
        bytes_eq(&self.u, &other.u) && crate::text::str_eq(self.salt.as_str(), other.salt.as_str())
    }

    /// A copy of the identifier.
    pub fn duplicate(&self) -> (r: TokenId)
        ensures
            r@ == self@,
    {
        proof {
            use_type_invariant(self);
        }
        TokenId { u: self.u.clone(), salt: self.salt.clone() }
    }

    /// The identifier as hexadecimal text followed by the salt.
    pub fn to_short_string(&self) -> (r: String)
        ensures
            r@ == short_text(self@),
    {
        let mut r = hex_encode(self.u.as_slice());
        push_str(&mut r, self.salt.as_str());
        r
    }

    /// The full text form of the identifier: `token:` and the short form.
    pub fn to_token_string(&self) -> (r: String)
        ensures
            r@ == token_prefix() + short_text(self@),
    {
        let mut r = String::new();
        push_str(&mut r, "token:");
        proof {
            reveal_strlit("token:");
        }
        let short = self.to_short_string();
        push_str(&mut r, short.as_str());
        proof {
            assert(r@ =~= token_prefix() + short_text(self@));
        }
        r
    }

    /// Reads an identifier from its short text form: a text of at least 48
    /// bytes whose first 32 bytes are the hexadecimal text of the identifier
    /// bytes and whose rest is the salt.
    pub fn try_from_str(s: &str) -> (r: Result<TokenId, TokenIdError>)
        requires
            cut_ok(s@),
        ensures
            encode_utf8(s@).len() < 48 ==> r == Err::<TokenId, TokenIdError>(
                TokenIdError::InvalidFormat,
            ),
            encode_utf8(s@).len() >= 48 ==> match hex_bytes(encode_utf8(s@).take(32)) {
                None => r == Err::<TokenId, TokenIdError>(TokenIdError::InvalidHex),
                Some(u) => r matches Ok(id) && id@.uuid == u && encode_utf8(id@.salt)
                    == encode_utf8(s@).skip(32),
            },
    {
        if s.as_bytes().len() < 48 {
            return Err(TokenIdError::InvalidFormat);
        }
        let (a, b) = s.split_at(32);
        assert(a.spec_bytes() =~= s.spec_bytes().take(32));
        assert(b.spec_bytes() =~= s.spec_bytes().skip(32));
        proof {
            lemma_hex_bytes_len(a.spec_bytes());
        }
        match hex_decode(a.as_bytes()) {
            Some(u) => Ok(TokenId { u, salt: b.to_owned() }),
            None => Err(TokenIdError::InvalidHex),
        }
    }

    /// Reads an identifier from its full text form, `token:` and the short
    /// form; any refusal is [`TokenIdError::InvalidFormat`].
    pub fn try_from_token_str(v: &str) -> (r: Result<TokenId, TokenIdError>)
        requires
            v@.len() >= 6 && v@.take(6) == token_prefix() ==> cut_ok(v@.skip(6)),
        ensures
            ({
                let rest = v@.skip(6);
                if v@.len() >= 6 && v@.take(6) == token_prefix() && encode_utf8(rest).len() >= 48
                    && hex_bytes(encode_utf8(rest).take(32)) is Some {
                    r matches Ok(id) && id@.uuid == hex_bytes(encode_utf8(rest).take(32))->0
                        && encode_utf8(id@.salt) == encode_utf8(rest).skip(32)
                } else {
                    r == Err::<TokenId, TokenIdError>(TokenIdError::InvalidFormat)
                }
            }),
    {
        let c = chars_of(v);
        if c.len() < 6 || c[0] != 't' || c[1] != 'o' || c[2] != 'k' || c[3] != 'e' || c[4] != 'n'
            || c[5] != ':' {
            proof {
                if v@.len() >= 6 {
                    assert(v@.take(6)[0] == v@[0]);
                    assert(v@.take(6)[1] == v@[1]);
                    assert(v@.take(6)[2] == v@[2]);
                    assert(v@.take(6)[3] == v@[3]);
                    assert(v@.take(6)[4] == v@[4]);
                    assert(v@.take(6)[5] == v@[5]);
                }
            }
            return Err(TokenIdError::InvalidFormat);
        }
        assert(v@.take(6) =~= token_prefix());
        let rest = string_of(&sub_chars(&c, 6, c.len()));
        assert(rest@ =~= v@.skip(6));
        match TokenId::try_from_str(rest.as_str()) {
            Ok(id) => Ok(id),
            Err(_) => Err(TokenIdError::InvalidFormat),
        }
    }
}


/// Session settings of the HMI service.
pub struct SessionConfig {
    /// session lifetime in whole seconds; `None` where sessions are disabled
    pub timeout: Option<u64>,
    /// whether a use of a token restarts its lifetime
    pub prolong: bool,
    /// whether a token may be used only from the address that created it
    pub stick_ip: bool,
    /// whether clients may list the sessions of other users
    pub allow_list_neighbors: bool,
}

/// Why a session operation was refused.
#[derive(PartialEq, Eq, Structural, Debug, Clone, Copy)]
pub enum AuthError {
    /// sessions are disabled
    SessionsDisabled,
    /// no such token, or it has expired
    InvalidToken,
    /// the token is used from another address
    TokenIpDenied,
    /// the operation is not allowed by the settings
    NotAllowed,
    /// a time value does not fit a signed 64-bit number
    TimeOutOfRange,
}

impl SessionConfig {
    /// The settings with the given values.
    pub fn new(timeout: Option<u64>, prolong: bool, stick_ip: bool, allow_list_neighbors: bool) -> (r: SessionConfig)
        ensures
            r.timeout == timeout,
            r.prolong == prolong,
            r.stick_ip == stick_ip,
            r.allow_list_neighbors == allow_list_neighbors,
    {
        SessionConfig { timeout, prolong, stick_ip, allow_list_neighbors }
    }
}

/// Whether sessions are enabled.
pub fn sessions_enabled(config: &SessionConfig) -> (r: bool)
    ensures
        r == config.timeout.is_some(),
{
    config.timeout.is_some()
}

/// The session lifetime in seconds.
pub fn get_expiration(config: &SessionConfig) -> (r: Result<u64, AuthError>)
    ensures
        match config.timeout {
            Some(t) => r == Ok::<u64, AuthError>(t),
            None => r == Err::<u64, AuthError>(AuthError::SessionsDisabled),
        },
{
    match config.timeout {
        Some(t) => Ok(t),
        None => Err(AuthError::SessionsDisabled),
    }
}

/// Whether the sessions of other users may be listed.
pub fn list_neighbors_allowed(config: &SessionConfig) -> (r: Result<(), AuthError>)
    ensures
        config.allow_list_neighbors ==> r is Ok,
        !config.allow_list_neighbors ==> r == Err::<(), AuthError>(AuthError::NotAllowed),
{
    if config.allow_list_neighbors {
        Ok(())
    } else {
        Err(AuthError::NotAllowed)
    }
}

/// A session token.
pub struct Token {
    id: TokenId,
    mode: u8,
    t: i64,
    user: String,
    acl_id: String,
    auth_svc: String,
    ip: Option<Vec<u8>>,
}

/// The model of a [`Token`]; the address is given by its octets.
pub struct TokenModel {
    pub id: TokenIdModel,
    pub mode: u8,
    pub t: i64,
    pub user: Seq<char>,
    pub acl_id: Seq<char>,
    pub auth_svc: Seq<char>,
    pub ip: Option<Seq<u8>>,
}

pub open spec fn ip_view(ip: Option<Vec<u8>>) -> Option<Seq<u8>> {
    match ip {
        Some(v) => Some(v@),
        None => None,
    }
}

impl View for Token {
    type V = TokenModel;

    closed spec fn view(&self) -> TokenModel {
        TokenModel {
            id: self.id@,
            mode: self.mode,
            t: self.t,
            user: self.user@,
            acl_id: self.acl_id@,
            auth_svc: self.auth_svc@,
            ip: ip_view(self.ip),
        }
    }
}

/// The second at which a token created or last used at `t` expires, where
/// sessions last `expiration` seconds.
pub open spec fn expires_at(t: i64, expiration: u64) -> int {
    t + expiration
}

/// Whether the time values fit: the lifetime and `now` are signed 64-bit
/// numbers.
pub open spec fn times_fit(expiration: u64, now: u64) -> bool {
    expiration <= i64::MAX && now <= i64::MAX
}

/// Whether the arithmetic of expiration stays in the signed 64-bit range.
pub open spec fn expiry_in_range(t: i64, expiration: u64, now: u64) -> bool {
    times_fit(expiration, now) ==> (expires_at(t, expiration) <= i64::MAX && i64::MIN
        <= expires_at(t, expiration) - now)
}

pub fn bytes_eq(x: &Vec<u8>, y: &Vec<u8>) -> (r: bool)
    ensures
        r == (x@ == y@),
{
    if x.len() != y.len() {
        return false;
    }
    let mut i: usize = 0;
    while i < x.len()
        invariant
            x.len() == y.len(),
            i <= x.len(),
            forall|j: int| 0 <= j < i ==> x@[j] == y@[j],
        decreases x.len() - i,
    {
        if x[i] != y[i] {
            assert(x@[i as int] != y@[i as int]);
            return false;
        }
        i = i + 1;
    }
    assert(x@ =~= y@);
    true
}

fn opt_bytes_eq(a: &Option<Vec<u8>>, b: &Option<Vec<u8>>) -> (r: bool)
    ensures
        r == (ip_view(*a) == ip_view(*b)),
{
    match a {
        Some(x) => match b {
            Some(y) => bytes_eq(x, y),
            None => false,
        },
        None => b.is_none(),
    }
}

impl Token {
    /// A token; without a mode it is a normal one, and without a creation
    /// time it is created `now` (or at 0 where `now` does not fit a signed
    /// 64-bit number).
    pub fn new(
        id: TokenId,
        user: String,
        acl_id: String,
        auth_svc: String,
        ip: Option<Vec<u8>>,
        mode: Option<u8>,
        creation_time: Option<i64>,
        now: u64,
    ) -> (r: Token)
        ensures
            r@.id == id@,
            r@.user == user@,
            r@.acl_id == acl_id@,
            r@.auth_svc == auth_svc@,
            r@.ip == ip_view(ip),
            r@.mode == match mode {
                Some(m) => m,
                None => TOKEN_MODE_NORMAL,
            },
            r@.t == match creation_time {
                Some(t) => t,
                None => if now <= i64::MAX {
                    now as i64
                } else {
                    0
                },
            },
    {
        let m = match mode {
            Some(m) => m,
            None => TOKEN_MODE_NORMAL,
        };
        let t = match creation_time {
            Some(t) => t,
            None => if now <= i64::MAX as u64 {
                now as i64
            } else {
                0
            },
        };
        Token { id, mode: m, t, user, acl_id, auth_svc, ip }
    }

    /// The mode name: `readonly` or `normal`.
    pub fn mode_as_str(&self) -> (r: &'static str)
        ensures
            self@.mode == TOKEN_MODE_READONLY ==> r@ == seq!['r', 'e', 'a', 'd', 'o', 'n', 'l', 'y'],
            self@.mode != TOKEN_MODE_READONLY ==> r@ == seq!['n', 'o', 'r', 'm', 'a', 'l'],
    {
        proof {
            reveal_strlit("readonly");
            reveal_strlit("normal");
        }
        if self.mode == TOKEN_MODE_READONLY {
            "readonly"
        } else {
            "normal"
        }
    }

    /// The creation or last-use time, in seconds.
    pub fn time(&self) -> (r: i64)
        ensures
            r == self@.t,
    {
        self.t
    }

    pub fn mode(&self) -> (r: u8)
        ensures
            r == self@.mode,
    {
        self.mode
    }

    pub fn is_readonly(&self) -> (r: bool)
        ensures
            r == (self@.mode == TOKEN_MODE_READONLY),
    {
        self.mode == TOKEN_MODE_READONLY
    }

    pub fn id(&self) -> (r: &TokenId)
        ensures
            r@ == self@.id,
    {
        &self.id
    }

    pub fn acl_id(&self) -> (r: &str)
        ensures
            r@ == self@.acl_id,
    {
        self.acl_id.as_str()
    }

    pub fn user(&self) -> (r: &str)
        ensures
            r@ == self@.user,
    {
        self.user.as_str()
    }

    pub fn auth_svc(&self) -> (r: &str)
        ensures
            r@ == self@.auth_svc,
    {
        self.auth_svc.as_str()
    }

    /// The octets of the address that created the token.
    pub fn ip(&self) -> (r: &Option<Vec<u8>>)
        ensures
            ip_view(*r) == self@.ip,
    {
        &self.ip
    }

    /// Makes the token a normal one; the rest stays.
    pub fn set_normal(&mut self)
        ensures
            final(self)@ == (TokenModel { mode: TOKEN_MODE_NORMAL, ..old(self)@ }),
    {
        self.mode = TOKEN_MODE_NORMAL;
    }

    /// Makes the token a read-only one; the rest stays.
    pub fn set_readonly(&mut self)
        ensures
            final(self)@ == (TokenModel { mode: TOKEN_MODE_READONLY, ..old(self)@ }),
    {
        self.mode = TOKEN_MODE_READONLY;
    }

    /// Whether the token has expired at `now` (seconds).
    pub fn is_expired(&self, config: &SessionConfig, now: u64) -> (r: Result<bool, AuthError>)
        requires
            config.timeout matches Some(e) ==> expiry_in_range(self@.t, e, now),
        ensures
            match config.timeout {
                None => r == Err::<bool, AuthError>(AuthError::SessionsDisabled),
                Some(e) => if times_fit(e, now) {
                    r == Ok::<bool, AuthError>(expires_at(self@.t, e) < now)
                } else {
                    r == Err::<bool, AuthError>(AuthError::TimeOutOfRange)
                },
            },
    {
        let e = match get_expiration(config) {
            Ok(e) => e,
            Err(err) => {
                return Err(err);
            },
        };
        if e > i64::MAX as u64 || now > i64::MAX as u64 {
            return Err(AuthError::TimeOutOfRange);
        }
        let at = self.t + e as i64;
        Ok(at < now as i64)
    }

    /// The seconds left until the token expires at `now`; 0 where it has.
    pub fn expires_in(&self, config: &SessionConfig, now: u64) -> (r: Result<u64, AuthError>)
        requires
            config.timeout matches Some(e) ==> expiry_in_range(self@.t, e, now),
        ensures
            match config.timeout {
                None => r == Err::<u64, AuthError>(AuthError::SessionsDisabled),
                Some(e) => if times_fit(e, now) {
                    r == Ok::<u64, AuthError>(
                        if expires_at(self@.t, e) >= now {
                            (expires_at(self@.t, e) - now) as u64
                        } else {
                            0
                        },
                    )
                } else {
                    r == Err::<u64, AuthError>(AuthError::TimeOutOfRange)
                },
            },
    {
        let e = match get_expiration(config) {
            Ok(e) => e,
            Err(err) => {
                return Err(err);
            },
        };
        if e > i64::MAX as u64 || now > i64::MAX as u64 {
            return Err(AuthError::TimeOutOfRange);
        }
        let at = self.t + e as i64;
        let left = at - now as i64;
        if left >= 0 {
            Ok(left as u64)
        } else {
            Ok(0)
        }
    }
}

/// A new session token for a user, created `now`; refused where sessions
/// are disabled.
pub fn create_token(
    config: &SessionConfig,
    id: TokenId,
    user: String,
    acl_id: String,
    auth_svc: String,
    ip: Option<Vec<u8>>,
    now: u64,
) -> (r: Result<Token, AuthError>)
    ensures
        config.timeout is None ==> r == Err::<Token, AuthError>(AuthError::SessionsDisabled),
        config.timeout is Some ==> (r matches Ok(tok) && tok@ == (TokenModel {
            id: id@,
            mode: TOKEN_MODE_NORMAL,
            t: if now <= i64::MAX {
                now as i64
            } else {
                0
            },
            user: user@,
            acl_id: acl_id@,
            auth_svc: auth_svc@,
            ip: ip_view(ip),
        })),
{
    if !sessions_enabled(config) {
        return Err(AuthError::SessionsDisabled);
    }
    Ok(Token::new(id, user, acl_id, auth_svc, ip, None, None, now))
}

/// The token that a client presents, checked at `now` from the address
/// `ip`: it must exist, come from its own address where tokens stick to
/// addresses, and not have expired; where sessions prolong, its time becomes
/// `now`. The flag tells whether the time was changed (and is to be saved).
pub fn check_token(token: Option<Token>, ip: &Option<Vec<u8>>, config: &SessionConfig, now: u64) -> (r:
    Result<(Token, bool), AuthError>)
    requires
        token matches Some(tok) ==> (config.timeout matches Some(e) ==> expiry_in_range(tok@.t, e, now)),
    ensures
        match token {
            None => r == Err::<(Token, bool), AuthError>(AuthError::InvalidToken),
            Some(tok) => if config.stick_ip && tok@.ip != ip_view(*ip) {
                r == Err::<(Token, bool), AuthError>(AuthError::TokenIpDenied)
            } else {
                match config.timeout {
                    None => r == Err::<(Token, bool), AuthError>(AuthError::SessionsDisabled),
                    Some(e) => if !times_fit(e, now) {
                        r == Err::<(Token, bool), AuthError>(AuthError::TimeOutOfRange)
                    } else if expires_at(tok@.t, e) < now {
                        r == Err::<(Token, bool), AuthError>(AuthError::InvalidToken)
                    } else {
                        r matches Ok((checked, touched)) && touched == config.prolong
                            && checked@ == (TokenModel {
                            t: if config.prolong {
                                now as i64
                            } else {
                                tok@.t
                            },
                            ..tok@
                        })
                    },
                }
            },
        },
{
    let mut tok = match token {
        Some(t) => t,
        None => {
            return Err(AuthError::InvalidToken);
        },
    };
    if config.stick_ip && !opt_bytes_eq(&tok.ip, ip) {
        return Err(AuthError::TokenIpDenied);
    }
    match tok.is_expired(config, now) {
        Err(e) => Err(e),
        Ok(true) => Err(AuthError::InvalidToken),
        Ok(false) => {
            if config.prolong {
                tok.t = now as i64;
                Ok((tok, true))
            } else {
                Ok((tok, false))
            }
        },
    }
}

/// A token checked at `now` has not expired then, and, where sessions
/// prolong, has its full lifetime left.
pub proof fn law_checked_token_is_fresh(tok: TokenModel, checked: TokenModel, e: u64, now: u64, prolong: bool)
    requires
        times_fit(e, now),
        expires_at(tok.t, e) >= now,
        checked == (TokenModel { t: if prolong { now as i64 } else { tok.t }, ..tok }),
    ensures
        !(expires_at(checked.t, e) < now),
        prolong ==> expires_at(checked.t, e) - now == e,
{
}

/// An expired token has no time left, and a token with time left has not
/// expired.
pub proof fn law_expired_means_no_time_left(t: i64, e: u64, now: u64)
    requires
        times_fit(e, now),
        expiry_in_range(t, e, now),
    ensures
        (expires_at(t, e) < now) ==> (if expires_at(t, e) >= now {
            (expires_at(t, e) - now) as u64
        } else {
            0u64
        }) == 0,
        (if expires_at(t, e) >= now {
            (expires_at(t, e) - now) as u64
        } else {
            0u64
        }) > 0 ==> !(expires_at(t, e) < now),
{
}

proof fn lemma_encode_concat(a: Seq<char>, b: Seq<char>)
    ensures
        encode_utf8(a + b) == encode_utf8(a) + encode_utf8(b),
    decreases a.len(),
{
    if a.len() > 0 {
        assert((a + b)[0] == a[0]);
        assert((a + b).drop_first() =~= a.drop_first() + b);
        lemma_encode_concat(a.drop_first(), b);
        assert(encode_utf8(a + b) =~= encode_utf8(a) + encode_utf8(b));
    } else {
        assert(a + b =~= b);
        assert(encode_utf8(a) + encode_utf8(b) =~= encode_utf8(b));
    }
}

proof fn lemma_encode_injective(x: Seq<char>, y: Seq<char>)
    requires
        encode_utf8(x) == encode_utf8(y),
    ensures
        x == y,
{
    encode_utf8_decode_utf8(x);
    encode_utf8_decode_utf8(y);
}

/// The full text form of an identifier of 16 bytes, whose salt is at least
/// 16 bytes long, reads back as that identifier: it has the `token:` prefix,
/// its rest may be cut after 32 bytes and is long enough, the first 32 bytes
/// are the hexadecimal text of the identifier bytes, and the only salt whose
/// bytes are the remaining bytes is the identifier's salt.
pub proof fn law_token_text_roundtrip(id: TokenIdModel)
    requires
        id.uuid.len() == 16,
        encode_utf8(id.salt).len() >= 16,
    ensures
        ({
            let v = token_prefix() + short_text(id);
            let rest = v.skip(6);
            &&& v.len() >= 6
            &&& v.take(6) == token_prefix()
            &&& cut_ok(rest)
            &&& encode_utf8(rest).len() >= 48
            &&& hex_bytes(encode_utf8(rest).take(32)) == Some(id.uuid)
            &&& forall|salt: Seq<char>|
                encode_utf8(salt) == encode_utf8(rest).skip(32) ==> salt == id.salt
        }),
{
    let v = token_prefix() + short_text(id);
    let h = hex_text(id.uuid);
    let rest = v.skip(6);
    assert(rest =~= h + id.salt);
    assert(v.take(6) =~= token_prefix());
    lemma_hex_roundtrip(id.uuid);
    lemma_hex_text_ascii(id.uuid);
    assert(is_ascii_chars(h));
    is_ascii_chars_encode_utf8(h);
    lemma_encode_concat(h, id.salt);
    let bytes = encode_utf8(rest);
    let hb = encode_utf8(h);
    assert(hb =~= h.map_values(|c: char| c as u8));
    assert(bytes.take(32) =~= hb);
    assert(bytes.skip(32) =~= encode_utf8(id.salt));
    encode_utf8_valid_utf8(rest);
    encode_utf8_valid_utf8(id.salt);
    let sb = encode_utf8(id.salt);
    assert(sb.len() > 0);
    assert(bytes[32] == sb[0]);
    is_char_boundary_iff_not_is_continuation_byte(bytes, 32);
    assert forall|salt: Seq<char>| encode_utf8(salt) == encode_utf8(rest).skip(32) implies salt == id.salt by {
        lemma_encode_injective(salt, id.salt);
    }
}

} // verus!

use vstd::prelude::*;
use vstd::utf8::encode_utf8;

use crate::config::{str_eq, Path8Config};
use crate::crypto::{base64url_nopad_decode, ct_eq_bytes, decode_base64url, hmac_sha256, hmac_sha256_tag, opt_bytes};
use crate::error::{unauthorized, unauthorized_with, KoraError, KoraErrorView};

verus! {

/// Splits `s` at every occurrence of `sep`, as `str::split` does: `k`
/// separators give `k + 1` pieces, empty pieces included.
pub open spec fn split_on(s: Seq<char>, sep: char) -> Seq<Seq<char>>
    decreases s.len(),
{
    if s.len() == 0 {
        seq![Seq::<char>::empty()]
    } else {
        let init = split_on(s.drop_last(), sep);
        if s.last() == sep {
            init.push(Seq::<char>::empty())
        } else {
            init.update(init.len() - 1, init.last().push(s.last()))
        }
    }
}

/// There is always at least one piece.
pub proof fn lemma_split_on_nonempty(s: Seq<char>, sep: char)
    ensures
        split_on(s, sep).len() >= 1,
    decreases s.len(),
{
    if s.len() > 0 {
        lemma_split_on_nonempty(s.drop_last(), sep);
    }
}

/// The pieces of `token` between its `'.'` separators, in order.
pub fn token_segments(token: &str) -> (parts: Vec<&str>)
    ensures
        parts@.len() == split_on(token@, '.').len(),
        forall|k: int| 0 <= k < parts@.len() ==> #[trigger] parts@[k]@ == split_on(token@, '.')[k],
{
    let n = token.unicode_len();
    let mut parts: Vec<&str> = Vec::new();
    let mut start: usize = 0;
    let mut i: usize = 0;
    proof {
        assert(token@.take(0) =~= Seq::<char>::empty());
    }
    while i < n
        invariant
            n == token@.len(),
            start <= i <= n,
            split_on(token@.take(i as int), '.').len() == parts@.len() + 1,
            forall|k: int|
                0 <= k < parts@.len() ==> #[trigger] parts@[k]@ == split_on(
                    token@.take(i as int),
                    '.',
                )[k],
            split_on(token@.take(i as int), '.').last() == token@.subrange(start as int, i as int),
        decreases n - i,
    {
        let c = token.get_char(i);
        let ghost prev = token@.take(i as int);
        let ghost next = token@.take(i + 1);
        proof {
            assert(next.drop_last() =~= prev);
            assert(next.last() == c);
            lemma_split_on_nonempty(prev, '.');
        }
        if c == '.' {
            let piece = token.substring_char(start, i);
            parts.push(piece);
            start = i + 1;
            i = i + 1;
            proof {
                assert(token@.subrange(start as int, i as int) =~= Seq::<char>::empty());
            }
        } else {
            i = i + 1;
            proof {
                assert(token@.subrange(start as int, i as int) =~= token@.subrange(
                    start as int,
                    i - 1,
                ).push(c));
            }
        }
    }
    let last = token.substring_char(start, n);
    parts.push(last);
    proof {
        assert(token@.take(n as int) =~= token@);
    }
    parts
}


pub const MISSING_PAYLOAD: &'static str = "approval token missing payload";
pub const MISSING_SIGNATURE: &'static str = "approval token missing signature";
pub const TOO_MANY_SEGMENTS: &'static str = "approval token has too many segments";
pub const HEADER_NOT_BASE64URL: &'static str = "approval token header is not base64url";
pub const HEADER_INVALID_JSON: &'static str = "approval token header is invalid JSON";
pub const ALG_NOT_HS256: &'static str = "approval token alg must be HS256";
pub const TYP_NOT_JWT: &'static str = "approval token typ must be JWT";
pub const SECRET_ENV_PREFIX: &'static str = "Path8 approval secret env ";
pub const SECRET_ENV_SUFFIX: &'static str = " is not set";
pub const SECRET_INVALID: &'static str = "Path8 approval secret is invalid";
pub const SIGNATURE_NOT_BASE64URL: &'static str = "approval token signature is not base64url";
pub const SIGNATURE_MISMATCH: &'static str = "approval token signature mismatch";
pub const PAYLOAD_NOT_BASE64URL: &'static str = "approval token payload is not base64url";
pub const PAYLOAD_INVALID_JSON: &'static str = "approval token payload is invalid JSON";
pub const MISSING_CLAIM: &'static str = "approval token missing required claim";
pub const TOKEN_EXPIRED: &'static str = "approval token expired";

/// The JOSE header of an approval token, as JSON decoding gives it.
#[derive(Debug)]
pub struct JwtHeader {
    pub alg: String,
    pub typ: Option<String>,
}

/// The mathematical value of a [`JwtHeader`].
pub struct JwtHeaderView {
    pub alg: Seq<char>,
    pub typ: Option<Seq<char>>,
}

/// The view of an optional string.
pub open spec fn opt_str(s: Option<String>) -> Option<Seq<char>> {
    match s {
        Some(t) => Some(t@),
        None => None,
    }
}

impl View for JwtHeader {
    type V = JwtHeaderView;

    open spec fn view(&self) -> JwtHeaderView {
        JwtHeaderView { alg: self.alg@, typ: opt_str(self.typ) }
    }
}

/// The claims of an approval token, as JSON decoding gives them.
#[derive(Debug)]
pub struct ApprovalClaims {
    pub sub: String,
    pub sid: String,
    pub iid: String,
    /// Hex SHA-256 of the canonical instructions that the token approves.
    pub ch: String,
    /// Expiry, in seconds since the Unix epoch.
    pub exp: i64,
    /// One-shot token id.
    pub jti: String,
}

/// The mathematical value of [`ApprovalClaims`].
pub struct ApprovalClaimsView {
    pub sub: Seq<char>,
    pub sid: Seq<char>,
    pub iid: Seq<char>,
    pub ch: Seq<char>,
    pub exp: i64,
    pub jti: Seq<char>,
}

impl View for ApprovalClaims {
    type V = ApprovalClaimsView;

    open spec fn view(&self) -> ApprovalClaimsView {
        ApprovalClaimsView {
            sub: self.sub@,
            sid: self.sid@,
            iid: self.iid@,
            ch: self.ch@,
            exp: self.exp,
            jti: self.jti@,
        }
    }
}

/// The view of an optional header.
pub open spec fn opt_header(h: Option<JwtHeader>) -> Option<JwtHeaderView> {
    match h {
        Some(x) => Some(x@),
        None => None,
    }
}

/// The view of optional claims.
pub open spec fn opt_claims(c: Option<ApprovalClaims>) -> Option<ApprovalClaimsView> {
    match c {
        Some(x) => Some(x@),
        None => None,
    }
}

/// The view of a verification result.
pub open spec fn claims_result(r: Result<ApprovalClaims, KoraError>) -> Result<ApprovalClaimsView, KoraErrorView> {
    match r {
        Ok(c) => Ok(c@),
        Err(e) => Err(e@),
    }
}

/// The header names HS256 and, where it names a type, the type JWT.
pub open spec fn header_acceptable(h: JwtHeaderView) -> bool {
    &&& h.alg == "HS256"@
    &&& (h.typ matches Some(t) ==> t == "JWT"@)
}

/// Every required claim is present: `sub`, `sid`, `iid` and `jti` are not
/// empty and `ch` is 64 bytes long.
pub open spec fn claims_complete(c: ApprovalClaimsView) -> bool {
    &&& c.sub.len() != 0
    &&& c.sid.len() != 0
    &&& c.iid.len() != 0
    &&& encode_utf8(c.ch).len() == 64
    &&& c.jti.len() != 0
}

/// The bytes that the signature covers: `header.payload`, UTF-8 encoded.
pub open spec fn signing_input(header_b64: Seq<char>, payload_b64: Seq<char>) -> Seq<u8> {
    encode_utf8(header_b64 + "."@ + payload_b64)
}

/// The text of the error for an unset secret variable.
pub open spec fn secret_env_missing(env: Seq<char>) -> KoraErrorView {
    KoraErrorView::Unauthorized(SECRET_ENV_PREFIX@ + env + SECRET_ENV_SUFFIX@)
}

/// What verifying an approval token gives, given the text of the token, the
/// JSON decoding of its header segment and of its payload segment (`None`
/// where the bytes are not such JSON), the secret held in the variable named
/// `secret_env` (`None` where it is not set) and the time `now`.
/// The checks come in the order below; the first that fails decides the
/// error.
pub open spec fn approval_token_outcome(
    secret_env: Seq<char>,
    token: Seq<char>,
    header: Option<JwtHeaderView>,
    secret: Option<Seq<char>>,
    claims: Option<ApprovalClaimsView>,
    now: i64,
) -> Result<ApprovalClaimsView, KoraErrorView> {
    let parts = split_on(token, '.');
    let unauth = |m: Seq<char>| KoraErrorView::Unauthorized(m);
    if parts.len() < 2 {
        Err(unauth(MISSING_PAYLOAD@))
    } else if parts.len() < 3 {
        Err(unauth(MISSING_SIGNATURE@))
    } else if parts.len() > 3 {
        Err(unauth(TOO_MANY_SEGMENTS@))
    } else if base64url_nopad_decode(parts[0]) is None {
        Err(unauth(HEADER_NOT_BASE64URL@))
    } else if header is None {
        Err(unauth(HEADER_INVALID_JSON@))
    } else if header.unwrap().alg != "HS256"@ {
        Err(unauth(ALG_NOT_HS256@))
    } else if !header_acceptable(header.unwrap()) {
        Err(unauth(TYP_NOT_JWT@))
    } else if secret is None {
        Err(secret_env_missing(secret_env))
    } else {
        let expected = hmac_sha256(encode_utf8(secret.unwrap()), signing_input(parts[0], parts[1]));
        let actual = base64url_nopad_decode(parts[2]);
        if actual is None {
            Err(unauth(SIGNATURE_NOT_BASE64URL@))
        } else if actual.unwrap() != expected {
            Err(unauth(SIGNATURE_MISMATCH@))
        } else if base64url_nopad_decode(parts[1]) is None {
            Err(unauth(PAYLOAD_NOT_BASE64URL@))
        } else if claims is None {
            Err(unauth(PAYLOAD_INVALID_JSON@))
        } else if !claims_complete(claims.unwrap()) {
            Err(unauth(MISSING_CLAIM@))
        } else if claims.unwrap().exp <= now {
            Err(unauth(TOKEN_EXPIRED@))
        } else {
            Ok(claims.unwrap())
        }
    }
}

/// Decodes one base64url segment of a token; `None` where it is not
/// unpadded URL-safe base64.
pub fn decode_segment(segment: &str) -> (r: Option<Vec<u8>>)
    ensures
        opt_bytes(r) == base64url_nopad_decode(segment@),
{
    decode_base64url(segment)
}

/// Verifies an HS256 approval token.
///
/// `header` and `claims` are the JSON decodings of the token's decoded header
/// and payload segments (`None` where those bytes are not valid JSON of the
/// expected shape, or do not decode at all); `secret` is the value of the
/// environment variable that `config.hmac_secret_env` names (`None` where it
/// is not set); `now` is the current Unix time in seconds.
pub fn verify_approval_token(
    config: &Path8Config,
    token: &str,
    header: Option<JwtHeader>,
    secret: Option<&str>,
    claims: Option<ApprovalClaims>,
    now: i64,
) -> (r: Result<ApprovalClaims, KoraError>)
    ensures
        claims_result(r) == approval_token_outcome(
            config.hmac_secret_env@,
            token@,
            opt_header(header),
            match secret { Some(s) => Some(s@), None => None },
            opt_claims(claims),
            now,
        ),
{
    let parts = token_segments(token);
    proof {
        lemma_split_on_nonempty(token@, '.');
    }
    if parts.len() < 2 {
        return Err(unauthorized(MISSING_PAYLOAD));
    }
    if parts.len() < 3 {
        return Err(unauthorized(MISSING_SIGNATURE));
    }
    if parts.len() > 3 {
        return Err(unauthorized(TOO_MANY_SEGMENTS));
    }
    let header_b64 = parts[0];
    let payload_b64 = parts[1];
    let sig_b64 = parts[2];
    proof {
        assert(header_b64@ == split_on(token@, '.')[0]);
        assert(payload_b64@ == split_on(token@, '.')[1]);
        assert(sig_b64@ == split_on(token@, '.')[2]);
    }
    if decode_base64url(header_b64).is_none() {
        return Err(unauthorized(HEADER_NOT_BASE64URL));
    }
    let header = match header {
        Some(h) => h,
        None => return Err(unauthorized(HEADER_INVALID_JSON)),
    };
    if !str_eq(header.alg.as_str(), "HS256") {
        return Err(unauthorized(ALG_NOT_HS256));
    }
    if let Some(typ) = &header.typ {
        if !str_eq(typ.as_str(), "JWT") {
            return Err(unauthorized(TYP_NOT_JWT));
        }
    }
    let secret = match secret {
        Some(s) => s,
        None => {
            let mut detail = config.hmac_secret_env.clone();
            detail.append(SECRET_ENV_SUFFIX);
            proof {
                assert(SECRET_ENV_PREFIX@ + detail@ =~= SECRET_ENV_PREFIX@ + config.hmac_secret_env@ + SECRET_ENV_SUFFIX@);
            }
            return Err(unauthorized_with(SECRET_ENV_PREFIX, detail.as_str()));
        },
    };
    let mut input = header_b64.to_owned();
    input.append(".");
    input.append(payload_b64);
    let expected = match hmac_sha256_tag(secret.as_bytes(), input.as_str().as_bytes()) {
        Some(m) => m,
        None => return Err(unauthorized(SECRET_INVALID)),
    };
    let actual = match decode_base64url(sig_b64) {
        Some(a) => a,
        None => return Err(unauthorized(SIGNATURE_NOT_BASE64URL)),
    };
    if !ct_eq_bytes(expected.as_slice(), actual.as_slice()) {
        return Err(unauthorized(SIGNATURE_MISMATCH));
    }
    if decode_base64url(payload_b64).is_none() {
        return Err(unauthorized(PAYLOAD_NOT_BASE64URL));
    }
    let claims = match claims {
        Some(c) => c,
        None => return Err(unauthorized(PAYLOAD_INVALID_JSON)),
    };
    if claims.sub.as_str().is_empty() || claims.sid.as_str().is_empty()
        || claims.iid.as_str().is_empty() || claims.ch.as_str().as_bytes().len() != 64
        || claims.jti.as_str().is_empty()
    {
        return Err(unauthorized(MISSING_CLAIM));
    }
    if claims.exp <= now {
        return Err(unauthorized(TOKEN_EXPIRED));
    }
    Ok(claims)
}

} // verus!

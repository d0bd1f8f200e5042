use vstd::prelude::*;

use crate::canonical::{
    canonical_hash_of, compute_canonical_instruction_hash, writable_loaded_total,
    VersionedTransactionResolved,
};
use crate::config::{str_eq, Path8Config};
use crate::crypto::unix_timestamp_now;
use crate::error::{unauthorized, unauthorized_with, KoraError, KoraErrorView};
use crate::token::{
    approval_token_outcome, opt_claims, opt_header, verify_approval_token, ApprovalClaims,
    ApprovalClaimsView, JwtHeader, TOKEN_EXPIRED,
};

verus! {

pub const TOKEN_REQUIRED_PREFIX: &'static str = "Path8 approval token required for ";
pub const CONTENT_HASH_MISMATCH: &'static str = "Path8 approval token content hash mismatch";
pub const REDIS_URL_REQUIRED: &'static str = "Path8 JTI Redis URL is required when enforcement is enabled";
pub const REDIS_CLIENT_ERROR_PREFIX: &'static str = "Path8 JTI Redis client error: ";
pub const REDIS_CONNECTION_ERROR_PREFIX: &'static str = "Path8 JTI Redis connection error: ";
pub const REDIS_SETNX_ERROR_PREFIX: &'static str = "Path8 JTI Redis SETNX error: ";
pub const JTI_ALREADY_CONSUMED: &'static str = "approval token JTI already consumed";

/// A one-shot JTI key to be set in the store with `SET key 1 EX ttl NX`.
#[derive(Debug)]
pub struct JtiReservation {
    /// Redis URL of the store.
    pub redis_url: String,
    /// The key: the configured prefix, a colon, the JTI.
    pub key: String,
    /// Seconds until the token expires.
    pub ttl: u64,
}

/// The mathematical value of a [`JtiReservation`].
pub struct JtiReservationView {
    pub redis_url: Seq<char>,
    pub key: Seq<char>,
    pub ttl: int,
}

impl View for JtiReservation {
    type V = JtiReservationView;

    open spec fn view(&self) -> JtiReservationView {
        JtiReservationView { redis_url: self.redis_url@, key: self.key@, ttl: self.ttl as int }
    }
}

/// What the JTI store answered to the `SET ... NX` request.
#[derive(Debug)]
pub enum JtiStoreReply {
    /// The client could not be created; the store's error text.
    ClientError(String),
    /// No connection could be made; the store's error text.
    ConnectionError(String),
    /// The command failed; the store's error text.
    CommandError(String),
    /// The command's reply: `Some("OK")` where the key was set, `None` where
    /// it already existed.
    Reply(Option<String>),
}

/// The store key of a JTI.
pub open spec fn jti_key(prefix: Seq<char>, jti: Seq<char>) -> Seq<char> {
    prefix + ":"@ + jti
}

/// What reserving the JTI of a token that expires at `exp` gives at time
/// `now`: an error where no store is configured or the token has expired.
pub open spec fn jti_reservation_outcome(config: &Path8Config, jti: Seq<char>, exp: i64, now: i64) -> Result<JtiReservationView, KoraErrorView> {
    match config.redis_url {
        None => Err(KoraErrorView::Unauthorized(REDIS_URL_REQUIRED@)),
        Some(url) => if exp - now <= 0 {
            Err(KoraErrorView::Unauthorized(TOKEN_EXPIRED@))
        } else {
            Ok(JtiReservationView { redis_url: url@, key: jti_key(config.jti_key_prefix@, jti), ttl: exp - now })
        },
    }
}

/// The view of a reservation result.
pub open spec fn reservation_result(r: Result<JtiReservation, KoraError>) -> Result<JtiReservationView, KoraErrorView> {
    match r {
        Ok(x) => Ok(x@),
        Err(e) => Err(e@),
    }
}

/// Prepares the one-shot consumption of a token's JTI: the store to use, the
/// key to set and its time to live.
pub fn reserve_jti(config: &Path8Config, jti: &str, exp: i64, now: i64) -> (r: Result<JtiReservation, KoraError>)
    ensures
        reservation_result(r) == jti_reservation_outcome(config, jti@, exp, now),
{
    let redis_url = match &config.redis_url {
        Some(u) => u,
        None => return Err(unauthorized(REDIS_URL_REQUIRED)),
    };
    let ttl: i128 = exp as i128 - now as i128;
    if ttl <= 0 {
        return Err(unauthorized(TOKEN_EXPIRED));
    }
    let mut key = config.jti_key_prefix.clone();
    key.append(":");
    key.append(jti);
    Ok(JtiReservation { redis_url: redis_url.clone(), key, ttl: ttl as u64 })
}

/// What the store's answer means for the approval: only a reply of `OK`
/// (the key was newly set) consumes the token.
pub open spec fn jti_reply_outcome(reply: &JtiStoreReply) -> Result<(), KoraErrorView> {
    match reply {
        JtiStoreReply::ClientError(t) => Err(KoraErrorView::Unauthorized(REDIS_CLIENT_ERROR_PREFIX@ + t@)),
        JtiStoreReply::ConnectionError(t) => Err(KoraErrorView::Unauthorized(REDIS_CONNECTION_ERROR_PREFIX@ + t@)),
        JtiStoreReply::CommandError(t) => Err(KoraErrorView::Unauthorized(REDIS_SETNX_ERROR_PREFIX@ + t@)),
        JtiStoreReply::Reply(Some(s)) => if s@ == "OK"@ {
            Ok(())
        } else {
            Err(KoraErrorView::Unauthorized(JTI_ALREADY_CONSUMED@))
        },
        JtiStoreReply::Reply(None) => Err(KoraErrorView::Unauthorized(JTI_ALREADY_CONSUMED@)),
    }
}

/// The view of a unit result.
pub open spec fn unit_result(r: Result<(), KoraError>) -> Result<(), KoraErrorView> {
    match r {
        Ok(()) => Ok(()),
        Err(e) => Err(e@),
    }
}

/// Decides the approval from the JTI store's answer to the reservation.
pub fn consume_jti_reply(reply: &JtiStoreReply) -> (r: Result<(), KoraError>)
    ensures
        unit_result(r) == jti_reply_outcome(reply),
{
    match reply {
        JtiStoreReply::ClientError(t) => Err(unauthorized_with(REDIS_CLIENT_ERROR_PREFIX, t.as_str())),
        JtiStoreReply::ConnectionError(t) => Err(unauthorized_with(REDIS_CONNECTION_ERROR_PREFIX, t.as_str())),
        JtiStoreReply::CommandError(t) => Err(unauthorized_with(REDIS_SETNX_ERROR_PREFIX, t.as_str())),
        JtiStoreReply::Reply(Some(s)) => {
            if str_eq(s.as_str(), "OK") {
                Ok(())
            } else {
                Err(unauthorized(JTI_ALREADY_CONSUMED))
            }
        },
        JtiStoreReply::Reply(None) => Err(unauthorized(JTI_ALREADY_CONSUMED)),
    }
}

/// What the approval check decides before the JTI store is asked: `Ok(None)`
/// where `method` needs no token, `Ok(Some(r))` where the token is valid,
/// bound to this transaction and its JTI is to be reserved as `r`, and
/// otherwise the first error in the order of the checks.
pub open spec fn approval_outcome(
    config: &Path8Config,
    method: Seq<char>,
    approval_token: Option<Seq<char>>,
    transaction: &VersionedTransactionResolved,
    header: Option<crate::token::JwtHeaderView>,
    secret: Option<Seq<char>>,
    claims: Option<ApprovalClaimsView>,
    verified_at: i64,
    consumed_at: i64,
) -> Result<Option<JtiReservationView>, KoraErrorView> {
    if !config.method_required(method) {
        Ok(None)
    } else {
        match approval_token {
            None => Err(KoraErrorView::Unauthorized(TOKEN_REQUIRED_PREFIX@ + method)),
            Some(token) => match approval_token_outcome(
                config.hmac_secret_env@,
                token,
                header,
                secret,
                claims,
                verified_at,
            ) {
                Err(e) => Err(e),
                Ok(c) => match canonical_hash_of(transaction) {
                    Err(e) => Err(e),
                    Ok(h) => if c.ch != h {
                        Err(KoraErrorView::Unauthorized(CONTENT_HASH_MISMATCH@))
                    } else {
                        match jti_reservation_outcome(config, c.jti, c.exp, consumed_at) {
                            Err(e) => Err(e),
                            Ok(r) => Ok(Some(r)),
                        }
                    },
                },
            },
        }
    }
}

/// The view of an approval result.
pub open spec fn approval_result(r: Result<Option<JtiReservation>, KoraError>) -> Result<Option<JtiReservationView>, KoraErrorView> {
    match r {
        Ok(Some(x)) => Ok(Some(x@)),
        Ok(None) => Ok(None),
        Err(e) => Err(e@),
    }
}

/// The view of an optional borrowed string.
pub open spec fn opt_text(s: Option<&str>) -> Option<Seq<char>> {
    match s {
        Some(t) => Some(t@),
        None => None,
    }
}

/// Runs the approval check for `method` on `transaction` up to the JTI store,
/// with the token checked at time `verified_at` and its time to live taken at
/// `consumed_at`.
///
/// `header`, `secret` and `claims` are as for
/// [`verify_approval_token`](crate::token::verify_approval_token).
pub fn enforce_path8_approval_at(
    config: &Path8Config,
    method: &str,
    approval_token: Option<&str>,
    transaction: &VersionedTransactionResolved,
    header: Option<JwtHeader>,
    secret: Option<&str>,
    claims: Option<ApprovalClaims>,
    verified_at: i64,
    consumed_at: i64,
) -> (r: Result<Option<JtiReservation>, KoraError>)
    requires
        writable_loaded_total(&transaction.transaction.message) <= usize::MAX,
    ensures
        approval_result(r) == approval_outcome(
            config,
            method@,
            opt_text(approval_token),
            transaction,
            opt_header(header),
            opt_text(secret),
            opt_claims(claims),
            verified_at,
            consumed_at,
        ),
{
    if !config.requires_method(method) {
        return Ok(None);
    }
    let token = match approval_token {
        Some(t) => t,
        None => return Err(unauthorized_with(TOKEN_REQUIRED_PREFIX, method)),
    };
    let claims = match verify_approval_token(config, token, header, secret, claims, verified_at) {
        Ok(c) => c,
        Err(e) => return Err(e),
    };
    let recomputed = match compute_canonical_instruction_hash(transaction) {
        Ok(h) => h,
        Err(e) => return Err(e),
    };
    if !str_eq(claims.ch.as_str(), recomputed.as_str()) {
        return Err(unauthorized(CONTENT_HASH_MISMATCH));
    }
    match reserve_jti(config, claims.jti.as_str(), claims.exp, consumed_at) {
        Ok(r) => Ok(Some(r)),
        Err(e) => Err(e),
    }
}

/// Runs the approval check for `method` on `transaction` up to the JTI store,
/// reading the clock for the expiry check and for the time to live.
pub fn enforce_path8_approval(
    config: &Path8Config,
    method: &str,
    approval_token: Option<&str>,
    transaction: &VersionedTransactionResolved,
    header: Option<JwtHeader>,
    secret: Option<&str>,
    claims: Option<ApprovalClaims>,
) -> (r: Result<Option<JtiReservation>, KoraError>)
    requires
        writable_loaded_total(&transaction.transaction.message) <= usize::MAX,
    ensures
        exists|verified_at: i64, consumed_at: i64|
            approval_result(r) == #[trigger] approval_outcome(
                config,
                method@,
                opt_text(approval_token),
                transaction,
                opt_header(header),
                opt_text(secret),
                opt_claims(claims),
                verified_at,
                consumed_at,
            ),
{
    let verified_at = unix_timestamp_now();
    let consumed_at = unix_timestamp_now();
    enforce_path8_approval_at(
        config,
        method,
        approval_token,
        transaction,
        header,
        secret,
        claims,
        verified_at,
        consumed_at,
    )
}

} // verus!

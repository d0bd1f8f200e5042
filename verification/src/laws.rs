use vstd::prelude::*;

use crate::approval::{
    approval_outcome, jti_reply_outcome, JtiReservationView, JtiStoreReply,
    JTI_ALREADY_CONSUMED, TOKEN_REQUIRED_PREFIX,
};
use crate::canonical::{
    le64, sum_writable_indexes, canonical_outer_of, MessageAddressTableLookup, VersionedMessage,
    PROGRAM_INDEX_OUT_OF_BOUNDS, ACCOUNT_INDEX_OUT_OF_BOUNDS, encode_account, encode_accounts, encode_instruction, encode_instructions, canonical_preimage,
    AccountMeta, CanonicalInstructionView,
    accounts_in_bounds, canonical_hash_of, canonical_instruction_of, canonical_instructions_of,
    writable_loaded_total, CompiledInstruction, MessageHeader, Pubkey,
    VersionedTransactionResolved,
};
use crate::config::Path8Config;
use crate::crypto::{base64url_nopad_decode, hmac_sha256};
use crate::error::KoraErrorView;
use crate::token::{
    approval_token_outcome, split_on,
    ApprovalClaimsView, JwtHeaderView,
};
use vstd::utf8::encode_utf8;

verus! {

/// A token is accepted only if it has three segments, an HS256 header, a
/// signature that is the HMAC-SHA256 of `header.payload` under the secret,
/// every required claim, and an expiry after `now`; what is returned is the
/// payload's claims.
pub proof fn lemma_accepted_token_is_signed_complete_and_unexpired(
    secret_env: Seq<char>,
    token: Seq<char>,
    header: Option<JwtHeaderView>,
    secret: Option<Seq<char>>,
    claims: Option<ApprovalClaimsView>,
    now: i64,
)
    requires
        approval_token_outcome(secret_env, token, header, secret, claims, now) is Ok,
    ensures
        ({
            let parts = split_on(token, '.');
            let c = approval_token_outcome(secret_env, token, header, secret, claims, now)->Ok_0;
            &&& parts.len() == 3
            &&& header matches Some(h) && h.alg == "HS256"@ && (h.typ matches Some(t) ==> t == "JWT"@)
            &&& secret is Some
            &&& base64url_nopad_decode(parts[2]) == Some(
                hmac_sha256(encode_utf8(secret->0), encode_utf8(parts[0] + "."@ + parts[1])),
            )
            &&& base64url_nopad_decode(parts[1]) is Some
            &&& claims == Some(c)
            &&& c.sub.len() != 0
            &&& c.sid.len() != 0
            &&& c.iid.len() != 0
            &&& c.jti.len() != 0
            &&& encode_utf8(c.ch).len() == 64
            &&& c.exp > now
        }),
{
}

/// A token whose signature segment does not decode to the HMAC-SHA256 of
/// `header.payload` under the secret is refused, whatever its claims.
pub proof fn lemma_forged_signature_is_refused(
    secret_env: Seq<char>,
    token: Seq<char>,
    header: Option<JwtHeaderView>,
    secret: Seq<char>,
    claims: Option<ApprovalClaimsView>,
    now: i64,
)
    requires
        split_on(token, '.').len() == 3,
        base64url_nopad_decode(split_on(token, '.')[2]) != Some(
            hmac_sha256(encode_utf8(secret), encode_utf8(split_on(token, '.')[0] + "."@ + split_on(token, '.')[1])),
        ),
    ensures
        approval_token_outcome(secret_env, token, header, Some(secret), claims, now) is Err,
{
}

/// A method that the configuration does not require a token for is let
/// through and reserves no JTI; a required method without a token is refused,
/// and the error names the method.
pub proof fn lemma_token_needed_only_for_listed_methods(
    config: &Path8Config,
    method: Seq<char>,
    approval_token: Option<Seq<char>>,
    transaction: &VersionedTransactionResolved,
    header: Option<JwtHeaderView>,
    secret: Option<Seq<char>>,
    claims: Option<ApprovalClaimsView>,
    verified_at: i64,
    consumed_at: i64,
)
    ensures
        !config.method_required(method) ==> approval_outcome(
            config, method, approval_token, transaction, header, secret, claims, verified_at, consumed_at,
        ) == Ok::<Option<JtiReservationView>, KoraErrorView>(None),
        config.method_required(method) && approval_token is None ==> approval_outcome(
            config, method, approval_token, transaction, header, secret, claims, verified_at, consumed_at,
        ) == Err::<Option<JtiReservationView>, KoraErrorView>(
            KoraErrorView::Unauthorized(TOKEN_REQUIRED_PREFIX@ + method),
        ),
{
}

/// An approval that asks for a JTI reservation was given for a protected
/// method, by a valid token whose content hash is the canonical hash of this
/// very transaction, and the reservation is the token's own JTI under the
/// configured prefix, for the time the token has left.
pub proof fn lemma_approval_binds_token_to_transaction(
    config: &Path8Config,
    method: Seq<char>,
    approval_token: Option<Seq<char>>,
    transaction: &VersionedTransactionResolved,
    header: Option<JwtHeaderView>,
    secret: Option<Seq<char>>,
    claims: Option<ApprovalClaimsView>,
    verified_at: i64,
    consumed_at: i64,
)
    requires
        approval_outcome(
            config, method, approval_token, transaction, header, secret, claims, verified_at, consumed_at,
        ) matches Ok(Some(_)),
    ensures
        ({
            let r = approval_outcome(
                config, method, approval_token, transaction, header, secret, claims, verified_at, consumed_at,
            )->Ok_0->Some_0;
            let v = approval_token_outcome(
                config.hmac_secret_env@, approval_token->0, header, secret, claims, verified_at,
            );
            &&& config.method_required(method)
            &&& approval_token is Some
            &&& v is Ok
            &&& canonical_hash_of(transaction) == Ok::<Seq<char>, KoraErrorView>(v->Ok_0.ch)
            &&& v->Ok_0.exp > verified_at
            &&& config.redis_url matches Some(url) && r.redis_url == url@
            &&& r.key == config.jti_key_prefix@ + ":"@ + v->Ok_0.jti
            &&& r.ttl == v->Ok_0.exp - consumed_at
            &&& r.ttl > 0
        }),
{
}

/// A token is consumed only where the store newly set its key (reply
/// `OK`); where the key already existed (no reply value) the token is
/// refused as already consumed.
pub proof fn lemma_jti_is_one_shot(reply: &JtiStoreReply)
    ensures
        jti_reply_outcome(reply) is Ok <==> (reply matches JtiStoreReply::Reply(Some(s)) && s@ == "OK"@),
        (reply matches JtiStoreReply::Reply(None)) ==> jti_reply_outcome(reply) == Err::<(), KoraErrorView>(
            KoraErrorView::Unauthorized(JTI_ALREADY_CONSUMED@),
        ),
{
}

/// Two compiled instructions with the same program index, account indices
/// and data.
pub open spec fn same_compiled(a: CompiledInstruction, b: CompiledInstruction) -> bool {
    &&& a.program_id_index == b.program_id_index
    &&& a.accounts@ == b.accounts@
    &&& a.data@ == b.data@
}

/// Two resolved transactions that agree on everything the canonical hash
/// reads: all account keys, the header, the number of static keys, the
/// number of writable loaded keys and the outer instructions. Recent
/// blockhash, signatures and lookup-table addresses are not among them.
pub open spec fn same_canonical_content(t1: &VersionedTransactionResolved, t2: &VersionedTransactionResolved) -> bool {
    let m1 = &t1.transaction.message;
    let m2 = &t2.transaction.message;
    &&& t1.all_account_keys@ == t2.all_account_keys@
    &&& m1.spec_header() == m2.spec_header()
    &&& m1.spec_static_account_keys().len() == m2.spec_static_account_keys().len()
    &&& writable_loaded_total(m1) == writable_loaded_total(m2)
    &&& m1.spec_instructions().len() == m2.spec_instructions().len()
    &&& forall|i: int|
        0 <= i < m1.spec_instructions().len() ==> same_compiled(
            #[trigger] m1.spec_instructions()[i],
            m2.spec_instructions()[i],
        )
}

proof fn lemma_same_instructions_same_result(
    a: Seq<CompiledInstruction>,
    b: Seq<CompiledInstruction>,
    keys: Seq<Pubkey>,
    static_len: int,
    writable_loaded: int,
    header: MessageHeader,
)
    requires
        a.len() == b.len(),
        forall|i: int| 0 <= i < a.len() ==> same_compiled(#[trigger] a[i], b[i]),
    ensures
        canonical_instructions_of(a, keys, static_len, writable_loaded, header)
            == canonical_instructions_of(b, keys, static_len, writable_loaded, header),
    decreases a.len(),
{
    if a.len() > 0 {
        lemma_same_instructions_same_result(a.drop_last(), b.drop_last(), keys, static_len, writable_loaded, header);
        let x = a.last();
        let y = b.last();
        assert(same_compiled(x, y));
        assert(accounts_in_bounds(&x, keys) == accounts_in_bounds(&y, keys));
        assert(canonical_instruction_of(&x, keys, static_len, writable_loaded, header)
            == canonical_instruction_of(&y, keys, static_len, writable_loaded, header));
    }
}

/// The canonical hash reads nothing but the outer instructions and the
/// accounts they name: transactions that differ only in recent blockhash,
/// signatures or lookup-table addresses have the same hash (or fail alike).
pub proof fn lemma_canonical_hash_ignores_blockhash_and_signatures(
    t1: &VersionedTransactionResolved,
    t2: &VersionedTransactionResolved,
)
    requires
        same_canonical_content(t1, t2),
    ensures
        canonical_hash_of(t1) == canonical_hash_of(t2),
{
    let m1 = &t1.transaction.message;
    let m2 = &t2.transaction.message;
    lemma_same_instructions_same_result(
        m1.spec_instructions(),
        m2.spec_instructions(),
        t1.all_account_keys@,
        m1.spec_static_account_keys().len() as int,
        writable_loaded_total(m1) as int,
        m1.spec_header(),
    );
}


/// Claims that lack a subject, session, instance or token id, or whose
/// content hash is not 64 bytes long, or that have expired, are never
/// accepted, whatever the rest of the token.
pub proof fn lemma_incomplete_or_expired_claims_are_refused(
    secret_env: Seq<char>,
    token: Seq<char>,
    header: Option<JwtHeaderView>,
    secret: Option<Seq<char>>,
    c: ApprovalClaimsView,
    now: i64,
)
    requires
        c.sub.len() == 0 || c.sid.len() == 0 || c.iid.len() == 0 || c.jti.len() == 0
            || encode_utf8(c.ch).len() != 64 || c.exp <= now,
    ensures
        approval_token_outcome(secret_env, token, header, secret, Some(c), now) is Err,
{
}

/// The value of little-endian bytes: `b[0] + 256 * b[1] + 256^2 * b[2] + ...`.
pub open spec fn le_value(b: Seq<u8>) -> int
    decreases b.len(),
{
    if b.len() == 0 {
        0
    } else {
        b[0] as int + 256 * le_value(b.drop_first())
    }
}

/// Every count and length of the canonical encoding is written in full:
/// eight bytes whose little-endian value is the number itself.
pub proof fn lemma_le64_is_full_little_endian(n: u64)
    ensures
        le64(n).len() == 8,
        le_value(le64(n)) == n as int,
{
    reveal_with_fuel(le_value, 9);
    let b = le64(n);
    assert(b.drop_first() =~= seq![b[1], b[2], b[3], b[4], b[5], b[6], b[7]]);
    assert(b.drop_first().drop_first() =~= seq![b[2], b[3], b[4], b[5], b[6], b[7]]);
    assert(b.drop_first().drop_first().drop_first() =~= seq![b[3], b[4], b[5], b[6], b[7]]);
    assert(b.drop_first().drop_first().drop_first().drop_first() =~= seq![b[4], b[5], b[6], b[7]]);
    assert(b.drop_first().drop_first().drop_first().drop_first().drop_first() =~= seq![b[5], b[6], b[7]]);
    assert(b.drop_first().drop_first().drop_first().drop_first().drop_first().drop_first() =~= seq![b[6], b[7]]);
    assert(b.drop_first().drop_first().drop_first().drop_first().drop_first().drop_first().drop_first() =~= seq![b[7]]);
    assert(b.drop_first().drop_first().drop_first().drop_first().drop_first().drop_first().drop_first().drop_first() =~= Seq::<u8>::empty());
    assert(n == (n % 0x100) + 0x100 * (((n / 0x100) % 0x100) + 0x100 * (((n / 0x1_0000) % 0x100)
        + 0x100 * (((n / 0x100_0000) % 0x100) + 0x100 * (((n / 0x1_0000_0000) % 0x100)
        + 0x100 * (((n / 0x100_0000_0000) % 0x100) + 0x100 * (((n / 0x1_0000_0000_0000) % 0x100)
        + 0x100 * ((n / 0x100_0000_0000_0000) % 0x100)))))))) by (bit_vector);
}


/// An account is written as its 32-byte key, then a byte that is 1 exactly
/// when it signs (else 0), then a byte that is 1 exactly when it is writable
/// (else 0).
pub proof fn lemma_account_layout(a: AccountMeta)
    ensures
        encode_account(a).len() == 34,
        encode_account(a).subrange(0, 32) == a.pubkey@,
        encode_account(a)[32] as int == (if a.is_signer { 1int } else { 0int }),
        encode_account(a)[33] as int == (if a.is_writable { 1int } else { 0int }),
{
    assert(encode_account(a).subrange(0, 32) =~= a.pubkey@);
}

/// The accounts are written one after another, 34 bytes each, in order.
pub proof fn lemma_accounts_layout(s: Seq<AccountMeta>)
    ensures
        encode_accounts(s).len() == 34 * s.len(),
        forall|k: int|
            0 <= k < s.len() ==> #[trigger] encode_accounts(s).subrange(34 * k, 34 * k + 34)
                == encode_account(s[k]),
    decreases s.len(),
{
    if s.len() > 0 {
        let init = s.drop_last();
        lemma_accounts_layout(init);
        lemma_account_layout(s.last());
        let e = encode_accounts(s);
        assert forall|k: int| 0 <= k < s.len() implies #[trigger] e.subrange(34 * k, 34 * k + 34)
            == encode_account(s[k]) by {
            if k < init.len() {
                assert(e.subrange(34 * k, 34 * k + 34) =~= encode_accounts(init).subrange(34 * k, 34 * k + 34));
                assert(s[k] == init[k]);
            } else {
                assert(e.subrange(34 * k, 34 * k + 34) =~= encode_account(s.last()));
            }
        }
    }
}

/// An instruction is written as its 32-byte program key, its account count
/// as eight little-endian bytes, its accounts, its data length as eight
/// little-endian bytes, and its data; the lengths are written in full,
/// however large.
pub proof fn lemma_instruction_layout(c: CanonicalInstructionView)
    requires
        c.accounts.len() <= u64::MAX,
        c.data.len() <= u64::MAX,
    ensures
        ({
            let e = encode_instruction(c);
            let na = c.accounts.len() as int;
            let nd = c.data.len() as int;
            &&& e.len() == 48 + 34 * na + nd
            &&& e.subrange(0, 32) == c.program_id@
            &&& le_value(e.subrange(32, 40)) == na
            &&& e.subrange(40, 40 + 34 * na) == encode_accounts(c.accounts)
            &&& le_value(e.subrange(40 + 34 * na, 48 + 34 * na)) == nd
            &&& e.subrange(48 + 34 * na, 48 + 34 * na + nd) == c.data
        }),
{
    let na = c.accounts.len() as int;
    let nd = c.data.len() as int;
    lemma_accounts_layout(c.accounts);
    lemma_le64_is_full_little_endian(c.accounts.len() as u64);
    lemma_le64_is_full_little_endian(c.data.len() as u64);
    let e = encode_instruction(c);
    assert(e.subrange(0, 32) =~= c.program_id@);
    assert(e.subrange(32, 40) =~= le64(c.accounts.len() as u64));
    assert(e.subrange(40, 40 + 34 * na) =~= encode_accounts(c.accounts));
    assert(e.subrange(40 + 34 * na, 48 + 34 * na) =~= le64(c.data.len() as u64));
    assert(e.subrange(48 + 34 * na, 48 + 34 * na + nd) =~= c.data);
}

/// The preimage starts with the instruction count as eight little-endian
/// bytes, followed by the instructions one after another, in order.
pub proof fn lemma_preimage_layout(s: Seq<CanonicalInstructionView>, c: CanonicalInstructionView)
    requires
        s.len() < u64::MAX,
    ensures
        canonical_preimage(s).len() == 8 + encode_instructions(s).len(),
        le_value(canonical_preimage(s).subrange(0, 8)) == s.len(),
        canonical_preimage(s).subrange(8, canonical_preimage(s).len() as int) == encode_instructions(s),
        encode_instructions(Seq::<CanonicalInstructionView>::empty()).len() == 0,
        encode_instructions(s.push(c)) == encode_instructions(s) + encode_instruction(c),
{
    lemma_le64_is_full_little_endian(s.len() as u64);
    let p = canonical_preimage(s);
    assert(p.subrange(0, 8) =~= le64(s.len() as u64));
    assert(p.subrange(8, p.len() as int) =~= encode_instructions(s));
    assert(s.push(c).drop_last() =~= s);
}


/// With enforcement on, every method listed anywhere in
/// `required_for_methods` needs a token.
pub proof fn lemma_listed_methods_are_required(config: &Path8Config, method: Seq<char>, k: int)
    requires
        config.enabled,
        0 <= k < config.required_for_methods@.len(),
        config.required_for_methods@[k]@ == method,
    ensures
        config.method_required(method),
{
}

/// Only listed methods need a token, and none does while enforcement is off.
pub proof fn lemma_required_methods_are_listed(config: &Path8Config, method: Seq<char>)
    requires
        config.method_required(method),
    ensures
        config.enabled,
        exists|k: int| 0 <= k < config.required_for_methods@.len() && #[trigger] config.required_for_methods@[k]@ == method,
{
}

/// A legacy message loads nothing; a version-0 message loads as many
/// writable accounts as its lookups list writable indexes, summed over the
/// lookups (read-only indexes do not count).
pub proof fn lemma_writable_loaded_count_sums_writable_indexes(
    m: &VersionedMessage,
    s: Seq<MessageAddressTableLookup>,
    l: MessageAddressTableLookup,
)
    ensures
        m is Legacy ==> writable_loaded_total(m) == 0,
        m matches VersionedMessage::V0(v) ==> writable_loaded_total(m) == sum_writable_indexes(v.address_table_lookups@),
        sum_writable_indexes(Seq::<MessageAddressTableLookup>::empty()) == 0,
        sum_writable_indexes(s.push(l)) == sum_writable_indexes(s) + l.writable_indexes@.len(),
        sum_writable_indexes(seq![l]) == l.writable_indexes@.len(),
{
    assert(s.push(l).drop_last() =~= s);
    assert(seq![l].drop_last() =~= Seq::<MessageAddressTableLookup>::empty());
}

/// Lookups with the same numbers of writable indexes load the same number of
/// writable accounts, whatever their read-only indexes and table addresses.
pub proof fn lemma_writable_loaded_count_ignores_readonly(
    s: Seq<MessageAddressTableLookup>,
    t: Seq<MessageAddressTableLookup>,
)
    requires
        s.len() == t.len(),
        forall|i: int| 0 <= i < s.len() ==> (#[trigger] s[i]).writable_indexes@.len() == t[i].writable_indexes@.len(),
    ensures
        sum_writable_indexes(s) == sum_writable_indexes(t),
    decreases s.len(),
{
    if s.len() > 0 {
        lemma_writable_loaded_count_ignores_readonly(s.drop_last(), t.drop_last());
    }
}

/// The writable flag of the account at key index `idx`, stated case by case:
/// a static signer is writable when it comes before the read-only signers, a
/// static non-signer when it comes before the read-only non-signers, and a
/// loaded account when it is among the writable loaded ones.
pub open spec fn writable_by_position(header: MessageHeader, idx: int, static_len: int, writable_loaded: int) -> bool {
    let r = header.num_required_signatures as int;
    if idx < static_len && idx < r {
        idx + header.num_readonly_signed_accounts < r
    } else if idx < static_len {
        idx + header.num_readonly_unsigned_accounts < static_len
    } else {
        idx - static_len < writable_loaded
    }
}

/// Canonicalising an instruction succeeds exactly when its program index and
/// every account index name one of the keys (static or loaded alike); it then
/// gives the program key, the data, and for each account index, in order, the
/// key it names, whether it signs (it is among the first
/// `num_required_signatures` keys) and whether it is writable. Otherwise the
/// error says which kind of index was out of bounds, the program's first.
pub proof fn lemma_canonical_instruction_resolves_indices(
    ix: CompiledInstruction,
    keys: Seq<Pubkey>,
    static_len: int,
    writable_loaded: int,
    header: MessageHeader,
)
    ensures
        ({
            let r = canonical_instruction_of(&ix, keys, static_len, writable_loaded, header);
            &&& (r is Ok <==> ((ix.program_id_index as int) < keys.len()
                && forall|k: int| 0 <= k < ix.accounts@.len() ==> (#[trigger] ix.accounts@[k] as int) < keys.len()))
            &&& (ix.program_id_index as int) >= keys.len() ==> r == Err::<CanonicalInstructionView, KoraErrorView>(
                KoraErrorView::InvalidTransaction(PROGRAM_INDEX_OUT_OF_BOUNDS@))
            &&& ((ix.program_id_index as int) < keys.len() && r is Err) ==> r == Err::<CanonicalInstructionView, KoraErrorView>(
                KoraErrorView::InvalidTransaction(ACCOUNT_INDEX_OUT_OF_BOUNDS@))
            &&& r matches Ok(v) ==> {
                &&& v.program_id == keys[ix.program_id_index as int]
                &&& v.data == ix.data@
                &&& v.accounts.len() == ix.accounts@.len()
                &&& forall|k: int| 0 <= k < ix.accounts@.len() ==> {
                    let idx = #[trigger] ix.accounts@[k] as int;
                    &&& v.accounts[k].pubkey == keys[idx]
                    &&& v.accounts[k].is_signer == (idx < header.num_required_signatures as int)
                    &&& v.accounts[k].is_writable == writable_by_position(header, idx, static_len, writable_loaded)
                }
            }
        }),
{
}

/// Canonicalising a list of instructions succeeds exactly when each one
/// does, and then gives each one's result, in order.
pub proof fn lemma_canonical_instructions_in_order(
    ixs: Seq<CompiledInstruction>,
    keys: Seq<Pubkey>,
    static_len: int,
    writable_loaded: int,
    header: MessageHeader,
)
    ensures
        ({
            let r = canonical_instructions_of(ixs, keys, static_len, writable_loaded, header);
            &&& (r is Ok <==> forall|i: int| 0 <= i < ixs.len() ==>
                (#[trigger] canonical_instruction_of(&ixs[i], keys, static_len, writable_loaded, header)) is Ok)
            &&& r matches Ok(v) ==> {
                &&& v.len() == ixs.len()
                &&& forall|i: int| 0 <= i < ixs.len() ==>
                    #[trigger] canonical_instruction_of(&ixs[i], keys, static_len, writable_loaded, header)
                        == Ok::<CanonicalInstructionView, KoraErrorView>(v[i])
            }
        }),
    decreases ixs.len(),
{
    if ixs.len() > 0 {
        let init = ixs.drop_last();
        lemma_canonical_instructions_in_order(init, keys, static_len, writable_loaded, header);
        assert forall|i: int| 0 <= i < init.len() implies #[trigger] init[i] == ixs[i] by {}
        let r = canonical_instructions_of(ixs, keys, static_len, writable_loaded, header);
        if r is Ok {
            let v = r->Ok_0;
            assert forall|i: int| 0 <= i < ixs.len() implies
                #[trigger] canonical_instruction_of(&ixs[i], keys, static_len, writable_loaded, header)
                    == Ok::<CanonicalInstructionView, KoraErrorView>(v[i]) by {
                if i < init.len() {
                    assert(init[i] == ixs[i]);
                } else {
                    assert(ixs[i] == ixs.last());
                }
            }
        } else {
            if canonical_instructions_of(init, keys, static_len, writable_loaded, header) is Err {
                let j = choose|i: int| 0 <= i < init.len() &&
                    (#[trigger] canonical_instruction_of(&init[i], keys, static_len, writable_loaded, header)) is Err;
                assert(init[j] == ixs[j]);
            } else {
                assert(ixs[ixs.len() - 1] == ixs.last());
            }
        }
    }
}

/// The canonical outer instructions of a transaction resolve every index
/// against all of its account keys, loaded ones included: they exist exactly
/// when every program and account index of every outer instruction is below
/// the number of those keys, and then each account carries the key its index
/// names; an account loaded from a lookup table (index at or past the static
/// keys) is writable exactly when it is among the writable loaded ones.
pub proof fn lemma_outer_instructions_resolve_all_account_keys(tx: &VersionedTransactionResolved)
    ensures
        ({
            let m = &tx.transaction.message;
            let ixs = m.spec_instructions();
            let keys = tx.all_account_keys@;
            let static_len = m.spec_static_account_keys().len() as int;
            let wl = writable_loaded_total(m) as int;
            &&& (canonical_outer_of(tx) is Ok <==> forall|i: int| 0 <= i < ixs.len() ==>
                ((#[trigger] ixs[i]).program_id_index as int) < keys.len()
                    && forall|k: int| 0 <= k < ixs[i].accounts@.len() ==> (#[trigger] ixs[i].accounts@[k] as int) < keys.len())
            &&& canonical_outer_of(tx) matches Ok(v) ==> {
                &&& v.len() == ixs.len()
                &&& forall|i: int, k: int| 0 <= i < ixs.len() && 0 <= k < ixs[i].accounts@.len() ==> {
                    let idx = #[trigger] ixs[i].accounts@[k] as int;
                    &&& (#[trigger] v[i]).accounts[k].pubkey == keys[idx]
                    &&& idx >= static_len ==> (v[i].accounts[k].is_writable <==> idx - static_len < wl)
                }
            }
        }),
{
    let m = &tx.transaction.message;
    let ixs = m.spec_instructions();
    let keys = tx.all_account_keys@;
    let static_len = m.spec_static_account_keys().len() as int;
    let wl = writable_loaded_total(m) as int;
    let header = m.spec_header();
    lemma_canonical_instructions_in_order(ixs, keys, static_len, wl, header);
    assert forall|i: int| #![trigger ixs[i]] 0 <= i < ixs.len() implies
        (canonical_instruction_of(&ixs[i], keys, static_len, wl, header) is Ok <==>
        ((ixs[i].program_id_index as int) < keys.len()
            && forall|k: int| 0 <= k < ixs[i].accounts@.len() ==> (#[trigger] ixs[i].accounts@[k] as int) < keys.len())) by {
        lemma_canonical_instruction_resolves_indices(ixs[i], keys, static_len, wl, header);
    }
    if canonical_outer_of(tx) is Ok {
        let v = canonical_outer_of(tx)->Ok_0;
        assert forall|i: int, k: int| 0 <= i < ixs.len() && 0 <= k < ixs[i].accounts@.len() implies {
            let idx = #[trigger] ixs[i].accounts@[k] as int;
            &&& (#[trigger] v[i]).accounts[k].pubkey == keys[idx]
            &&& idx >= static_len ==> (v[i].accounts[k].is_writable <==> idx - static_len < wl)
        } by {
            lemma_canonical_instruction_resolves_indices(ixs[i], keys, static_len, wl, header);
            assert(canonical_instruction_of(&ixs[i], keys, static_len, wl, header) == Ok::<CanonicalInstructionView, KoraErrorView>(v[i]));
        }
    } else {
        assert(!(forall|i: int| 0 <= i < ixs.len() ==>
            (#[trigger] canonical_instruction_of(&ixs[i], keys, static_len, wl, header)) is Ok));
    }
}


/// The pieces joined back together with `sep` between them.
pub open spec fn join_with(pieces: Seq<Seq<char>>, sep: char) -> Seq<char>
    decreases pieces.len(),
{
    if pieces.len() == 0 {
        Seq::empty()
    } else if pieces.len() == 1 {
        pieces[0]
    } else {
        join_with(pieces.drop_last(), sep).push(sep) + pieces.last()
    }
}

/// Splitting cuts at every separator and nowhere else: no piece holds the
/// separator, and joining the pieces with it gives back the text.
pub proof fn lemma_split_on_cuts_at_separators(s: Seq<char>, sep: char)
    ensures
        split_on(s, sep).len() >= 1,
        forall|i: int, j: int| 0 <= i < split_on(s, sep).len() && 0 <= j < split_on(s, sep)[i].len()
            ==> #[trigger] split_on(s, sep)[i][j] != sep,
        join_with(split_on(s, sep), sep) == s,
    decreases s.len(),
{
    if s.len() > 0 {
        let init = s.drop_last();
        lemma_split_on_cuts_at_separators(init, sep);
        let p = split_on(init, sep);
        let q = split_on(s, sep);
        if s.last() == sep {
            assert(q == p.push(Seq::<char>::empty()));
            assert(q.drop_last() =~= p);
            assert forall|i: int, j: int| 0 <= i < q.len() && 0 <= j < q[i].len()
                implies #[trigger] q[i][j] != sep by {
                assert(i < p.len());
                assert(q[i] == p[i]);
            }
            assert(join_with(q, sep) =~= join_with(p, sep).push(sep));
            assert(s =~= init.push(sep));
        } else {
            let last = p.last().push(s.last());
            assert(q == p.update(p.len() - 1, last));
            assert forall|i: int, j: int| 0 <= i < q.len() && 0 <= j < q[i].len()
                implies #[trigger] q[i][j] != sep by {
                if i < p.len() - 1 {
                    assert(q[i] == p[i]);
                } else {
                    assert(q[i] == last);
                    if j < p.last().len() {
                        assert(q[i][j] == p[p.len() - 1][j]);
                    }
                }
            }
            if p.len() == 1 {
                assert(join_with(p, sep) == p[0]);
                assert(join_with(q, sep) == q[0]);
                assert(s =~= init.push(s.last()));
            } else {
                assert(q.drop_last() =~= p.drop_last());
                assert(join_with(q, sep) =~= join_with(p.drop_last(), sep).push(sep) + last);
                assert(join_with(p, sep) =~= join_with(p.drop_last(), sep).push(sep) + p.last());
                assert(s =~= init.push(s.last()));
            }
        }
    }
}

} // verus!

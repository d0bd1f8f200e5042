use vstd::prelude::*;

use crate::crypto::{hex_encode, lower_hex, sha256, sha256_digest};
use crate::error::{invalid_transaction, KoraError, KoraErrorView};

verus! {

/// A 32-byte account address.
pub type Pubkey = [u8; 32];

/// A 64-byte transaction signature.
pub type Signature = [u8; 64];

/// Counts that sort a message's static account keys into signer and
/// read-only groups.
#[derive(Clone, Copy, Debug)]
pub struct MessageHeader {
    pub num_required_signatures: u8,
    pub num_readonly_signed_accounts: u8,
    pub num_readonly_unsigned_accounts: u8,
}

/// An instruction whose program and accounts are indices into the message's
/// account keys.
#[derive(Debug)]
pub struct CompiledInstruction {
    pub program_id_index: u8,
    pub accounts: Vec<u8>,
    pub data: Vec<u8>,
}

/// Accounts that a version-0 message loads from an address lookup table.
#[derive(Debug)]
pub struct MessageAddressTableLookup {
    pub account_key: Pubkey,
    pub writable_indexes: Vec<u8>,
    pub readonly_indexes: Vec<u8>,
}

/// A legacy message.
#[derive(Debug)]
pub struct LegacyMessage {
    pub header: MessageHeader,
    pub account_keys: Vec<Pubkey>,
    pub recent_blockhash: [u8; 32],
    pub instructions: Vec<CompiledInstruction>,
}

/// A version-0 message, which may load accounts from lookup tables.
#[derive(Debug)]
pub struct V0Message {
    pub header: MessageHeader,
    pub account_keys: Vec<Pubkey>,
    pub recent_blockhash: [u8; 32],
    pub instructions: Vec<CompiledInstruction>,
    pub address_table_lookups: Vec<MessageAddressTableLookup>,
}

/// A message in either format.
#[derive(Debug)]
pub enum VersionedMessage {
    Legacy(LegacyMessage),
    V0(V0Message),
}

/// A signed (or partly signed) transaction.
#[derive(Debug)]
pub struct VersionedTransaction {
    pub signatures: Vec<Signature>,
    pub message: VersionedMessage,
}

/// A transaction together with all of its account keys: the static keys
/// followed by the writable and then the read-only keys loaded from lookup
/// tables.
#[derive(Debug)]
pub struct VersionedTransactionResolved {
    pub transaction: VersionedTransaction,
    pub all_account_keys: Vec<Pubkey>,
}

/// An account of a canonical instruction with its signer and writable flags.
#[derive(Clone, Copy, Debug)]
pub struct AccountMeta {
    pub pubkey: Pubkey,
    pub is_signer: bool,
    pub is_writable: bool,
}

/// An outer instruction with its program and accounts resolved to keys.
#[derive(Debug)]
pub struct CanonicalInstruction {
    pub program_id: Pubkey,
    pub accounts: Vec<AccountMeta>,
    pub data: Vec<u8>,
}

/// The mathematical value of a [`CanonicalInstruction`].
pub struct CanonicalInstructionView {
    pub program_id: Pubkey,
    pub accounts: Seq<AccountMeta>,
    pub data: Seq<u8>,
}

impl View for CanonicalInstruction {
    type V = CanonicalInstructionView;

    open spec fn view(&self) -> CanonicalInstructionView {
        CanonicalInstructionView { program_id: self.program_id, accounts: self.accounts@, data: self.data@ }
    }
}

pub const PROGRAM_INDEX_OUT_OF_BOUNDS: &'static str = "instruction program id index out of bounds";
pub const ACCOUNT_INDEX_OUT_OF_BOUNDS: &'static str = "instruction account index out of bounds";

impl VersionedMessage {
    pub open spec fn spec_header(&self) -> MessageHeader {
        match self {
            VersionedMessage::Legacy(m) => m.header,
            VersionedMessage::V0(m) => m.header,
        }
    }

    pub open spec fn spec_static_account_keys(&self) -> Seq<Pubkey> {
        match self {
            VersionedMessage::Legacy(m) => m.account_keys@,
            VersionedMessage::V0(m) => m.account_keys@,
        }
    }

    pub open spec fn spec_instructions(&self) -> Seq<CompiledInstruction> {
        match self {
            VersionedMessage::Legacy(m) => m.instructions@,
            VersionedMessage::V0(m) => m.instructions@,
        }
    }

    /// The message header.
    pub fn header(&self) -> (h: MessageHeader)
        ensures
            h == self.spec_header(),
    {
        match self {
            VersionedMessage::Legacy(m) => m.header,
            VersionedMessage::V0(m) => m.header,
        }
    }

    /// The keys listed in the message itself.
    pub fn static_account_keys(&self) -> (keys: &Vec<Pubkey>)
        ensures
            keys@ == self.spec_static_account_keys(),
    {
        match self {
            VersionedMessage::Legacy(m) => &m.account_keys,
            VersionedMessage::V0(m) => &m.account_keys,
        }
    }

    /// The outer instructions.
    pub fn instructions(&self) -> (ixs: &Vec<CompiledInstruction>)
        ensures
            ixs@ == self.spec_instructions(),
    {
        match self {
            VersionedMessage::Legacy(m) => &m.instructions,
            VersionedMessage::V0(m) => &m.instructions,
        }
    }
}

/// The total number of writable indexes over a list of lookups.
pub open spec fn sum_writable_indexes(lookups: Seq<MessageAddressTableLookup>) -> nat
    decreases lookups.len(),
{
    if lookups.len() == 0 {
        0
    } else {
        sum_writable_indexes(lookups.drop_last()) + lookups.last().writable_indexes@.len()
    }
}

/// The number of writable accounts that a message loads from lookup tables:
/// none for a legacy message.
pub open spec fn writable_loaded_total(message: &VersionedMessage) -> nat {
    match message {
        VersionedMessage::Legacy(_) => 0,
        VersionedMessage::V0(m) => sum_writable_indexes(m.address_table_lookups@),
    }
}

/// The number of writable accounts that `message` loads from lookup tables.
pub fn writable_loaded_address_count(message: &VersionedMessage) -> (n: usize)
    requires
        writable_loaded_total(message) <= usize::MAX,
    ensures
        n == writable_loaded_total(message),
{
    match message {
        VersionedMessage::Legacy(_) => 0,
        VersionedMessage::V0(v0) => {
            let lookups = &v0.address_table_lookups;
            let mut total: usize = 0;
            let mut i: usize = 0;
            while i < lookups.len()
                invariant
                    i <= lookups@.len(),
                    total == sum_writable_indexes(lookups@.take(i as int)),
                    sum_writable_indexes(lookups@) <= usize::MAX,
                decreases lookups@.len() - i,
            {
                proof {
                    assert(lookups@.take(i + 1).drop_last() =~= lookups@.take(i as int));
                    lemma_sum_writable_prefix(lookups@, i + 1);
                }
                total = total + lookups[i].writable_indexes.len();
                i = i + 1;
            }
            proof {
                assert(lookups@.take(i as int) =~= lookups@);
            }
            total
        },
    }
}

/// A prefix of the lookups has no more writable indexes than all of them.
pub proof fn lemma_sum_writable_prefix(lookups: Seq<MessageAddressTableLookup>, n: int)
    requires
        0 <= n <= lookups.len(),
    ensures
        sum_writable_indexes(lookups.take(n)) <= sum_writable_indexes(lookups),
    decreases lookups.len(),
{
    if n < lookups.len() {
        assert(lookups.drop_last().take(n) =~= lookups.take(n));
        lemma_sum_writable_prefix(lookups.drop_last(), n);
    } else {
        assert(lookups.take(n) =~= lookups);
    }
}

/// The account at `index` signs the message.
pub open spec fn signer_at(header: MessageHeader, index: int) -> bool {
    index < header.num_required_signatures
}

/// `a - b`, or 0 where `b` exceeds `a`.
pub open spec fn sat_sub(a: int, b: int) -> int {
    if a >= b {
        a - b
    } else {
        0
    }
}

/// The account at `index` is writable: a static signer before the read-only
/// signers, a static non-signer before the read-only non-signers, or one of
/// the writable accounts loaded from lookup tables (which follow the static
/// keys).
pub open spec fn writable_at(header: MessageHeader, index: int, static_len: int, writable_loaded: int) -> bool {
    let required = header.num_required_signatures as int;
    if index < static_len {
        if index < required {
            index < sat_sub(required, header.num_readonly_signed_accounts as int)
        } else {
            index < sat_sub(static_len, header.num_readonly_unsigned_accounts as int)
        }
    } else {
        index - static_len < writable_loaded
    }
}

/// Whether the account at `index` signs `message`.
pub fn is_signer(message: &VersionedMessage, index: usize) -> (r: bool)
    ensures
        r == signer_at(message.spec_header(), index as int),
{
    index < message.header().num_required_signatures as usize
}

/// Whether the account at `index` is writable in `message`, whose static keys
/// number `static_len` and which loads `writable_loaded_count` writable
/// accounts from lookup tables.
pub fn is_writable(
    message: &VersionedMessage,
    index: usize,
    static_len: usize,
    writable_loaded_count: usize,
) -> (r: bool)
    ensures
        r == writable_at(message.spec_header(), index as int, static_len as int, writable_loaded_count as int),
{
    let header = message.header();
    let required = header.num_required_signatures as usize;
    if index < static_len {
        if index < required {
            return index < required.saturating_sub(header.num_readonly_signed_accounts as usize);
        }
        return index < static_len.saturating_sub(header.num_readonly_unsigned_accounts as usize);
    }
    let loaded_index = index - static_len;
    loaded_index < writable_loaded_count
}


/// The account of a canonical instruction at key index `idx`.
pub open spec fn account_meta_at(
    header: MessageHeader,
    keys: Seq<Pubkey>,
    static_len: int,
    writable_loaded: int,
    idx: u8,
) -> AccountMeta {
    AccountMeta {
        pubkey: keys[idx as int],
        is_signer: signer_at(header, idx as int),
        is_writable: writable_at(header, idx as int, static_len, writable_loaded),
    }
}

/// Every account index of the instruction names a key.
pub open spec fn accounts_in_bounds(ix: &CompiledInstruction, keys: Seq<Pubkey>) -> bool {
    forall|k: int| 0 <= k < ix.accounts@.len() ==> (#[trigger] ix.accounts@[k] as int) < keys.len()
}

/// What canonicalising one compiled instruction gives: an error where its
/// program index, or else one of its account indices, names no key.
pub open spec fn canonical_instruction_of(
    ix: &CompiledInstruction,
    keys: Seq<Pubkey>,
    static_len: int,
    writable_loaded: int,
    header: MessageHeader,
) -> Result<CanonicalInstructionView, KoraErrorView> {
    if ix.program_id_index as int >= keys.len() {
        Err(KoraErrorView::InvalidTransaction(PROGRAM_INDEX_OUT_OF_BOUNDS@))
    } else if !accounts_in_bounds(ix, keys) {
        Err(KoraErrorView::InvalidTransaction(ACCOUNT_INDEX_OUT_OF_BOUNDS@))
    } else {
        Ok(CanonicalInstructionView {
            program_id: keys[ix.program_id_index as int],
            accounts: Seq::new(
                ix.accounts@.len(),
                |k: int| account_meta_at(header, keys, static_len, writable_loaded, ix.accounts@[k]),
            ),
            data: ix.data@,
        })
    }
}

/// The view of a canonicalisation result.
pub open spec fn canonical_result(r: Result<CanonicalInstruction, KoraError>) -> Result<CanonicalInstructionView, KoraErrorView> {
    match r {
        Ok(c) => Ok(c@),
        Err(e) => Err(e@),
    }
}

/// Resolves one compiled instruction against `account_keys`.
pub fn canonical_instruction(
    ix: &CompiledInstruction,
    account_keys: &Vec<Pubkey>,
    static_len: usize,
    writable_loaded_count: usize,
    message: &VersionedMessage,
) -> (r: Result<CanonicalInstruction, KoraError>)
    ensures
        canonical_result(r) == canonical_instruction_of(
            ix,
            account_keys@,
            static_len as int,
            writable_loaded_count as int,
            message.spec_header(),
        ),
{
    let pid = ix.program_id_index as usize;
    if pid >= account_keys.len() {
        return Err(invalid_transaction(PROGRAM_INDEX_OUT_OF_BOUNDS));
    }
    let program_id = account_keys[pid];
    let ghost keys = account_keys@;
    let ghost header = message.spec_header();
    let mut accounts: Vec<AccountMeta> = Vec::new();
    let n = ix.accounts.len();
    let mut i: usize = 0;
    while i < n
        invariant
            n == ix.accounts@.len(),
            i <= n,
            keys == account_keys@,
            header == message.spec_header(),
            (ix.program_id_index as int) < keys.len(),
            accounts@.len() == i,
            forall|k: int| 0 <= k < i ==> (#[trigger] ix.accounts@[k] as int) < keys.len(),
            forall|k: int|
                0 <= k < i ==> #[trigger] accounts@[k] == account_meta_at(
                    header,
                    keys,
                    static_len as int,
                    writable_loaded_count as int,
                    ix.accounts@[k],
                ),
        decreases n - i,
    {
        let index = ix.accounts[i] as usize;
        if index >= account_keys.len() {
            proof {
                assert(!accounts_in_bounds(ix, keys)) by {
                    assert(!((ix.accounts@[i as int] as int) < keys.len()));
                }
            }
            return Err(invalid_transaction(ACCOUNT_INDEX_OUT_OF_BOUNDS));
        }
        let meta = AccountMeta {
            pubkey: account_keys[index],
            is_signer: is_signer(message, index),
            is_writable: is_writable(message, index, static_len, writable_loaded_count),
        };
        accounts.push(meta);
        i = i + 1;
    }
    let data = ix.data.clone();
    let c = CanonicalInstruction { program_id, accounts, data };
    proof {
        assert(c.accounts@ =~= Seq::new(
            ix.accounts@.len(),
            |k: int| account_meta_at(header, keys, static_len as int, writable_loaded_count as int, ix.accounts@[k]),
        ));
    }
    Ok(c)
}

/// What canonicalising a list of compiled instructions gives: the first
/// error in order, or every instruction canonicalised.
pub open spec fn canonical_instructions_of(
    ixs: Seq<CompiledInstruction>,
    keys: Seq<Pubkey>,
    static_len: int,
    writable_loaded: int,
    header: MessageHeader,
) -> Result<Seq<CanonicalInstructionView>, KoraErrorView>
    decreases ixs.len(),
{
    if ixs.len() == 0 {
        Ok(Seq::empty())
    } else {
        match canonical_instructions_of(ixs.drop_last(), keys, static_len, writable_loaded, header) {
            Err(e) => Err(e),
            Ok(done) => match canonical_instruction_of(&ixs.last(), keys, static_len, writable_loaded, header) {
                Err(e) => Err(e),
                Ok(c) => Ok(done.push(c)),
            },
        }
    }
}

/// The canonical outer instructions of a resolved transaction.
pub open spec fn canonical_outer_of(tx: &VersionedTransactionResolved) -> Result<Seq<CanonicalInstructionView>, KoraErrorView> {
    let message = &tx.transaction.message;
    canonical_instructions_of(
        message.spec_instructions(),
        tx.all_account_keys@,
        message.spec_static_account_keys().len() as int,
        writable_loaded_total(message) as int,
        message.spec_header(),
    )
}

/// Once a prefix of the instructions fails, the whole list fails with the
/// same error.
pub proof fn lemma_error_persists(
    ixs: Seq<CompiledInstruction>,
    j: int,
    keys: Seq<Pubkey>,
    static_len: int,
    writable_loaded: int,
    header: MessageHeader,
)
    requires
        0 <= j <= ixs.len(),
        canonical_instructions_of(ixs.take(j), keys, static_len, writable_loaded, header) is Err,
    ensures
        canonical_instructions_of(ixs, keys, static_len, writable_loaded, header)
            == canonical_instructions_of(ixs.take(j), keys, static_len, writable_loaded, header),
    decreases ixs.len(),
{
    if j == ixs.len() {
        assert(ixs.take(j) =~= ixs);
    } else {
        assert(ixs.drop_last().take(j) =~= ixs.take(j));
        lemma_error_persists(ixs.drop_last(), j, keys, static_len, writable_loaded, header);
    }
}

/// The view of a list of canonical instructions.
pub open spec fn canonical_views(v: Seq<CanonicalInstruction>) -> Seq<CanonicalInstructionView> {
    Seq::new(v.len(), |i: int| v[i]@)
}

/// The view of a result holding a list of canonical instructions.
pub open spec fn canonical_list_result(r: Result<Vec<CanonicalInstruction>, KoraError>) -> Result<Seq<CanonicalInstructionView>, KoraErrorView> {
    match r {
        Ok(v) => Ok(canonical_views(v@)),
        Err(e) => Err(e@),
    }
}

/// Resolves every outer instruction of `transaction`, in order.
pub fn canonical_outer_instructions(transaction: &VersionedTransactionResolved) -> (r: Result<Vec<CanonicalInstruction>, KoraError>)
    requires
        writable_loaded_total(&transaction.transaction.message) <= usize::MAX,
    ensures
        canonical_list_result(r) == canonical_outer_of(transaction),
{
    let account_keys = &transaction.all_account_keys;
    let message = &transaction.transaction.message;
    let static_len = message.static_account_keys().len();
    let writable_loaded_count = writable_loaded_address_count(message);
    let ixs = message.instructions();
    let ghost keys = account_keys@;
    let ghost header = message.spec_header();
    let mut out: Vec<CanonicalInstruction> = Vec::new();
    let mut i: usize = 0;
    proof {
        assert(ixs@.take(0) =~= Seq::<CompiledInstruction>::empty());
        assert(canonical_views(out@) =~= Seq::<CanonicalInstructionView>::empty());
    }
    while i < ixs.len()
        invariant
            i <= ixs@.len(),
            ixs@ == message.spec_instructions(),
            *message == transaction.transaction.message,
            account_keys@ == transaction.all_account_keys@,
            static_len == message.spec_static_account_keys().len(),
            writable_loaded_count == writable_loaded_total(message),
            keys == account_keys@,
            header == message.spec_header(),
            canonical_instructions_of(ixs@.take(i as int), keys, static_len as int, writable_loaded_count as int, header)
                == Ok::<Seq<CanonicalInstructionView>, KoraErrorView>(canonical_views(out@)),
        decreases ixs@.len() - i,
    {
        let ghost prefix = ixs@.take(i as int);
        proof {
            assert(ixs@.take(i + 1).drop_last() =~= prefix);
            assert(ixs@.take(i + 1).last() == ixs@[i as int]);
        }
        match canonical_instruction(&ixs[i], account_keys, static_len, writable_loaded_count, message) {
            Ok(c) => {
                let ghost before = out@;
                out.push(c);
                proof {
                    assert(canonical_views(out@) =~= canonical_views(before).push(c@));
                }
            },
            Err(e) => {
                proof {
                    assert(canonical_instructions_of(ixs@.take(i + 1), keys, static_len as int, writable_loaded_count as int, header)
                        == Err::<Seq<CanonicalInstructionView>, KoraErrorView>(e@));
                    lemma_error_persists(ixs@, i + 1, keys, static_len as int, writable_loaded_count as int, header);
                }
                return Err(e);
            },
        }
        i = i + 1;
    }
    proof {
        assert(ixs@.take(i as int) =~= ixs@);
    }
    Ok(out)
}


/// The eight little-endian bytes of `n`.
pub open spec fn le64(n: u64) -> Seq<u8> {
    seq![
        (n % 0x100) as u8,
        ((n / 0x100) % 0x100) as u8,
        ((n / 0x1_0000) % 0x100) as u8,
        ((n / 0x100_0000) % 0x100) as u8,
        ((n / 0x1_0000_0000) % 0x100) as u8,
        ((n / 0x100_0000_0000) % 0x100) as u8,
        ((n / 0x1_0000_0000_0000) % 0x100) as u8,
        ((n / 0x100_0000_0000_0000) % 0x100) as u8,
    ]
}

/// 1 for true, 0 for false.
pub open spec fn flag_byte(b: bool) -> u8 {
    if b {
        1
    } else {
        0
    }
}

/// One account: its key, then its signer flag and its writable flag.
pub open spec fn encode_account(a: AccountMeta) -> Seq<u8> {
    a.pubkey@ + seq![flag_byte(a.is_signer), flag_byte(a.is_writable)]
}

/// The accounts, one after another.
pub open spec fn encode_accounts(s: Seq<AccountMeta>) -> Seq<u8>
    decreases s.len(),
{
    if s.len() == 0 {
        Seq::empty()
    } else {
        encode_accounts(s.drop_last()) + encode_account(s.last())
    }
}

/// One instruction: program key, account count, accounts, data length, data.
pub open spec fn encode_instruction(c: CanonicalInstructionView) -> Seq<u8> {
    c.program_id@ + le64(c.accounts.len() as u64) + encode_accounts(c.accounts) + le64(
        c.data.len() as u64,
    ) + c.data
}

/// The instructions, one after another.
pub open spec fn encode_instructions(s: Seq<CanonicalInstructionView>) -> Seq<u8>
    decreases s.len(),
{
    if s.len() == 0 {
        Seq::empty()
    } else {
        encode_instructions(s.drop_last()) + encode_instruction(s.last())
    }
}

/// The bytes that the canonical hash covers: the instruction count, then
/// each instruction.
pub open spec fn canonical_preimage(s: Seq<CanonicalInstructionView>) -> Seq<u8> {
    le64(s.len() as u64) + encode_instructions(s)
}

/// The canonical instruction hash of a transaction: lower-case hex SHA-256
/// of the canonical preimage of its outer instructions, or the error that
/// canonicalising them gives.
pub open spec fn canonical_hash_of(tx: &VersionedTransactionResolved) -> Result<Seq<char>, KoraErrorView> {
    match canonical_outer_of(tx) {
        Ok(s) => Ok(lower_hex(sha256_digest(canonical_preimage(s)))),
        Err(e) => Err(e),
    }
}

/// Appends the little-endian bytes of `n`.
fn push_le64(buf: &mut Vec<u8>, n: u64)
    ensures
        final(buf)@ == old(buf)@ + le64(n),
{
    buf.push((n % 0x100) as u8);
    buf.push(((n / 0x100) % 0x100) as u8);
    buf.push(((n / 0x1_0000) % 0x100) as u8);
    buf.push(((n / 0x100_0000) % 0x100) as u8);
    buf.push(((n / 0x1_0000_0000) % 0x100) as u8);
    buf.push(((n / 0x100_0000_0000) % 0x100) as u8);
    buf.push(((n / 0x1_0000_0000_0000) % 0x100) as u8);
    buf.push(((n / 0x100_0000_0000_0000) % 0x100) as u8);
    assert(buf@ =~= old(buf)@ + le64(n));
}

/// Appends `bytes`.
fn push_bytes(buf: &mut Vec<u8>, bytes: &[u8])
    ensures
        final(buf)@ == old(buf)@ + bytes@,
{
    let n = bytes.len();
    let mut i: usize = 0;
    while i < n
        invariant
            n == bytes@.len(),
            i <= n,
            buf@ == old(buf)@ + bytes@.take(i as int),
        decreases n - i,
    {
        buf.push(bytes[i]);
        i = i + 1;
        assert(buf@ =~= old(buf)@ + bytes@.take(i as int));
    }
    assert(bytes@.take(n as int) =~= bytes@);
}

/// The canonical preimage of `instructions`.
pub fn canonical_preimage_bytes(instructions: &Vec<CanonicalInstruction>) -> (bytes: Vec<u8>)
    ensures
        bytes@ == canonical_preimage(canonical_views(instructions@)),
{
    let mut buf: Vec<u8> = Vec::new();
    push_le64(&mut buf, instructions.len() as u64);
    let ghost views = canonical_views(instructions@);
    let mut i: usize = 0;
    proof {
        assert(views.take(0) =~= Seq::<CanonicalInstructionView>::empty());
    }
    while i < instructions.len()
        invariant
            i <= instructions@.len(),
            views == canonical_views(instructions@),
            buf@ == le64(instructions@.len() as u64) + encode_instructions(views.take(i as int)),
        decreases instructions@.len() - i,
    {
        let ix = &instructions[i];
        let ghost before = buf@;
        push_bytes(&mut buf, ix.program_id.as_slice());
        push_le64(&mut buf, ix.accounts.len() as u64);
        let mut k: usize = 0;
        proof {
            assert(ix.accounts@.take(0) =~= Seq::<AccountMeta>::empty());
        }
        while k < ix.accounts.len()
            invariant
                k <= ix.accounts@.len(),
                buf@ == before + ix.program_id@ + le64(ix.accounts@.len() as u64) + encode_accounts(ix.accounts@.take(k as int)),
            decreases ix.accounts@.len() - k,
        {
            let a = ix.accounts[k];
            push_bytes(&mut buf, a.pubkey.as_slice());
            buf.push(if a.is_signer { 1u8 } else { 0u8 });
            buf.push(if a.is_writable { 1u8 } else { 0u8 });
            proof {
                assert(ix.accounts@.take(k + 1).drop_last() =~= ix.accounts@.take(k as int));
                assert(ix.accounts@.take(k + 1).last() == a);
            }
            k = k + 1;
            assert(buf@ =~= before + ix.program_id@ + le64(ix.accounts@.len() as u64) + encode_accounts(ix.accounts@.take(k as int)));
        }
        push_le64(&mut buf, ix.data.len() as u64);
        push_bytes(&mut buf, ix.data.as_slice());
        proof {
            assert(ix.accounts@.take(k as int) =~= ix.accounts@);
            assert(views.take(i + 1).drop_last() =~= views.take(i as int));
            assert(views.take(i + 1).last() == ix@);
        }
        i = i + 1;
        assert(buf@ =~= le64(instructions@.len() as u64) + encode_instructions(views.take(i as int)));
    }
    proof {
        assert(views.take(i as int) =~= views);
    }
    buf
}

/// The view of a hash result.
pub open spec fn text_result(r: Result<String, KoraError>) -> Result<Seq<char>, KoraErrorView> {
    match r {
        Ok(s) => Ok(s@),
        Err(e) => Err(e@),
    }
}

/// The canonical hash of `transaction`'s outer instructions: lower-case hex
/// SHA-256 over the instruction count, and for each instruction its program
/// key, account count, accounts (key, signer flag, writable flag), data length
/// and data, with counts and lengths as little-endian `u64`.
pub fn compute_canonical_instruction_hash(transaction: &VersionedTransactionResolved) -> (r: Result<String, KoraError>)
    requires
        writable_loaded_total(&transaction.transaction.message) <= usize::MAX,
    ensures
        text_result(r) == canonical_hash_of(transaction),
        r matches Ok(h) ==> h@.len() == 64,
{
    let instructions = match canonical_outer_instructions(transaction) {
        Ok(v) => v,
        Err(e) => return Err(e),
    };
    let preimage = canonical_preimage_bytes(&instructions);
    let digest = sha256(preimage.as_slice());
    Ok(hex_encode(digest.as_slice()))
}

} // verus!

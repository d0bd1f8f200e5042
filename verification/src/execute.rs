use vstd::prelude::*;

verus! {

/// Parameters of the `path8_execute` RPC method.
#[derive(Debug)]
pub struct Path8ExecuteRequest {
    /// Base64-encoded Solana transaction signed by the user/delegated authority.
    pub transaction: String,
    /// One-shot approval JWT minted by Path8 for the transaction's canonical content hash.
    pub approval_token: String,
    /// Optional signer key to ensure consistency across related RPC calls.
    pub signer_key: Option<String>,
    /// Whether to verify signatures during simulation (defaults to false).
    pub sig_verify: bool,
    /// Optional user ID for usage tracking (required when pricing is free and usage tracking is enabled).
    pub user_id: Option<String>,
}

/// Result of the `path8_execute` RPC method.
#[derive(Debug)]
pub struct Path8ExecuteResponse {
    pub signed_transaction: String,
    /// Public key of the relayer signer used for co-signing/paymaster.
    pub signer_pubkey: String,
    /// Transaction signature.
    pub signature: String,
}

} // verus!

use vstd::prelude::*;

verus! {

/// Errors reported by the approval check.
#[derive(Debug)]
pub enum KoraError {
    /// The request is not authorised; the text says why.
    Unauthorized(String),
    /// The transaction could not be read; the text says why.
    InvalidTransaction(String),
}

/// The mathematical value of a [`KoraError`]: its kind and its text.
pub enum KoraErrorView {
    Unauthorized(Seq<char>),
    InvalidTransaction(Seq<char>),
}

impl View for KoraError {
    type V = KoraErrorView;

    open spec fn view(&self) -> KoraErrorView {
        match self {
            KoraError::Unauthorized(m) => KoraErrorView::Unauthorized(m@),
            KoraError::InvalidTransaction(m) => KoraErrorView::InvalidTransaction(m@),
        }
    }
}

/// Builds an `Unauthorized` error with the given text.
pub fn unauthorized(msg: &str) -> (e: KoraError)
    ensures
        e@ == KoraErrorView::Unauthorized(msg@),
{
    KoraError::Unauthorized(msg.to_owned())
}

/// Builds an `Unauthorized` error whose text is `prefix` followed by `detail`.
pub fn unauthorized_with(prefix: &str, detail: &str) -> (e: KoraError)
    ensures
        e@ == KoraErrorView::Unauthorized(prefix@ + detail@),
{
    let mut m = prefix.to_owned();
    m.append(detail);
    KoraError::Unauthorized(m)
}

/// Builds an `InvalidTransaction` error with the given text.
pub fn invalid_transaction(msg: &str) -> (e: KoraError)
    ensures
        e@ == KoraErrorView::InvalidTransaction(msg@),
{
    KoraError::InvalidTransaction(msg.to_owned())
}

} // verus!

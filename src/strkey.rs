use vstd::prelude::*;

verus! {

/// The 32-byte ed25519 key that a `G...` account address encodes, if it is one.
pub uninterp spec fn account_key_of(address: Seq<char>) -> Option<Seq<u8>>;

/// The `G...` account address that encodes a 32-byte ed25519 key.
pub uninterp spec fn account_address_of(key: Seq<u8>) -> Seq<char>;

/// The 32-byte contract id that a `C...` contract address encodes, if it is one.
pub uninterp spec fn contract_key_of(address: Seq<char>) -> Option<Seq<u8>>;

/// The percent-encoding of a string (every byte but alphanumerics and `-_.~`).
pub uninterp spec fn url_encoded(s: Seq<char>) -> Seq<char>;

/// Relies on stellar_strkey::ed25519::PublicKey::from_string, which decodes an
/// account address and checks its version byte and checksum.
#[verifier::external_body]
pub fn account_str_to_bytes(account: &str) -> (r: Option<[u8; 32]>)
    ensures
        r matches Some(k) ==> account_key_of(account@) == Some(k@),
        r is None ==> account_key_of(account@) is None,
{
    stellar_strkey::ed25519::PublicKey::from_string(account).ok().map(|k| k.0)
}

/// Relies on stellar_strkey::ed25519::PublicKey::to_string, which encodes a key
/// as an account address.
#[verifier::external_body]
pub(crate) fn account_bytes_to_str(key: &[u8; 32]) -> (r: String)
    ensures
        r@ == account_address_of(key@),
{
    stellar_strkey::ed25519::PublicKey(*key).to_string().as_str().to_owned()
}

/// Relies on stellar_strkey::Contract::from_string, which decodes a contract
/// address and checks its version byte and checksum.
#[verifier::external_body]
pub(crate) fn contract_str_to_bytes(contract: &str) -> (r: Option<[u8; 32]>)
    ensures
        r matches Some(k) ==> contract_key_of(contract@) == Some(k@),
        r is None ==> contract_key_of(contract@) is None,
{
    stellar_strkey::Contract::from_string(contract).ok().map(|c| c.0)
}

/// Relies on urlencoding::encode, which percent-encodes a string for a form body.
#[verifier::external_body]
pub(crate) fn url_encode(s: &str) -> (r: String)
    ensures
        r@ == url_encoded(s@),
{
    urlencoding::encode(s).into_owned()
}

/// Relies on str::strip_prefix: the rest of `s` after `prefix`, when `s` starts
/// with it.
#[verifier::external_body]
pub(crate) fn strip_prefix_of(s: &str, prefix: &str) -> (r: Option<String>)
    ensures
        r is Some <==> prefix@.is_prefix_of(s@),
        r matches Some(rest) ==> rest@ == s@.subrange(prefix@.len() as int, s@.len() as int),
{
    s.strip_prefix(prefix).map(|rest| rest.to_owned())
}

} // verus!

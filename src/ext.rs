use vstd::prelude::*;

verus! {

/// Transaction receipt of the `web3` crate, carried through without being
/// inspected.
#[verifier::external_type_specification]
#[verifier::external_body]
pub struct ExTransactionReceipt(web3::types::TransactionReceipt);

/// Relies on the derived `Clone` of `web3::types::TransactionReceipt` (an
/// alias of `web3::types::transaction::Receipt`): a field-by-field copy, equal
/// to the original.
pub assume_specification[ <web3::types::TransactionReceipt as std::clone::Clone>::clone ](
    r: &web3::types::TransactionReceipt,
) -> (c: web3::types::TransactionReceipt)
    ensures
        c == *r,
;

} // verus!

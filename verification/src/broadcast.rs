//! The checked form of a broadcaster's reply.
//!
//! The settlement network's broadcaster answers with a transaction id,
//! the sender address, and the confirmed amount as a decimal string.
//! The network call itself lives with the caller; this module turns the
//! reply's plain fields into a record with the amount as an integer,
//! rejecting a malformed amount.

use vstd::prelude::*;
use crate::codec::{all_digits, dec_value, parse_unsigned};

verus! {

/// A broadcaster reply with the confirmed amount parsed.
#[derive(Debug)]
pub struct BoltTransactionResponse {
    /// Transaction id on the settlement network.
    pub txid: String,
    /// Address the confirmed payment came from.
    pub sender: String,
    /// Confirmed amount in base-asset units.
    pub amount: u128,
}

impl BoltTransactionResponse {
    /// Builds the checked reply from the broadcaster's raw fields;
    /// errors when the amount is not a decimal integer in range.
    pub fn from(txid: String, sender: String, amount: &str) -> (r: Result<
        BoltTransactionResponse,
        (),
    >)
        ensures
            r is Ok <==> amount@.len() > 0 && all_digits(amount@) && dec_value(amount@)
                <= u128::MAX,
            r matches Ok(b) ==> b.txid == txid && b.sender == sender && b.amount as nat
                == dec_value(amount@),
    {
        match parse_unsigned(amount) {
            Ok(v) => Ok(BoltTransactionResponse { txid, sender, amount: v }),
            Err(()) => Err(()),
        }
    }
}

} // verus!

//! Assembling transactions from plain parameters.
use crate::qubic_transactions::{
    copy_bytes, encode_tx, RawTransaction, TransactionBuilder, TransactionData,
    TransactionWithData,
};
use crate::qubic_types::{QubicError, QubicId};
use vstd::prelude::*;

verus! {

/// What a transaction transfers and calls.
#[derive(Debug, Clone)]
pub struct TransactionParams {
    pub from: QubicId,
    pub to: QubicId,
    pub amount: u64,
    pub tick: u32,
    pub input_type: u16,
    pub payload: Vec<u8>,
}

impl TransactionParams {
    /// A plain transfer: tick 0, input type 0, no payload.
    pub fn new(from: QubicId, to: QubicId, amount: u64) -> (r: Self)
        ensures
            r.from == from,
            r.to == to,
            r.amount == amount,
            r.tick == 0,
            r.input_type == 0,
            r.payload@ == Seq::<u8>::empty(),
    {
        TransactionParams { from, to, amount, tick: 0, input_type: 0, payload: Vec::new() }
    }

    pub fn with_tick(self, tick: u32) -> (r: Self)
        ensures
            r == (TransactionParams { tick, ..self }),
    {
        TransactionParams { tick, ..self }
    }

    pub fn with_input_type(self, input_type: u16) -> (r: Self)
        ensures
            r == (TransactionParams { input_type, ..self }),
    {
        TransactionParams { input_type, ..self }
    }

    pub fn with_payload(self, payload: Vec<u8>) -> (r: Self)
        ensures
            r == (TransactionParams { payload, ..self }),
    {
        TransactionParams { payload, ..self }
    }
}

/// Errors in assembling transactions.
#[derive(Debug)]
pub enum TransactionError {
    /// The payload is longer than its 16-bit size field can say.
    PayloadTooLarge { max: usize, found: usize },
    /// The signing wallet is not the source of the transaction.
    SignerMismatch { expected: QubicId, found: QubicId },
    /// A seed or identity was malformed.
    Qubic(QubicError),
}

/// Largest payload a transaction carries.
pub const MAX_PAYLOAD_SIZE: usize = 65535;

/// Succeeds exactly when the payload fits in the 16-bit size field.
fn ensure_payload_size(payload: &[u8]) -> (r: Result<(), TransactionError>)
    ensures
        match r {
            Ok(()) => payload@.len() <= MAX_PAYLOAD_SIZE,
            Err(e) => payload@.len() > MAX_PAYLOAD_SIZE && e == (TransactionError::PayloadTooLarge {
                max: MAX_PAYLOAD_SIZE,
                found: payload@.len() as usize,
            }),
        },
{
    if payload.len() > MAX_PAYLOAD_SIZE {
        return Err(TransactionError::PayloadTooLarge { max: MAX_PAYLOAD_SIZE, found: payload.len() });
    }
    Ok(())
}

/// The unsigned transaction of `params`: its header says the payload's length, the payload is
/// carried as it is, and the signature is all zero. Fails when the payload is longer than
/// 65535 bytes.
pub fn build_unsigned_transaction(params: &TransactionParams) -> (r: Result<
    TransactionWithData,
    TransactionError,
>)
    ensures
        match r {
            Ok(tx) => params.payload@.len() <= MAX_PAYLOAD_SIZE && tx.raw_transaction == (
            RawTransaction {
                from: params.from,
                to: params.to,
                amount: params.amount,
                tick: params.tick,
                input_type: params.input_type,
                input_size: params.payload@.len() as u16,
            }) && tx.data@ == Some(params.payload@) && tx.signature.0@ == Seq::new(
                64,
                |i: int| 0u8,
            ),
            Err(e) => params.payload@.len() > MAX_PAYLOAD_SIZE && e == (
            TransactionError::PayloadTooLarge {
                max: MAX_PAYLOAD_SIZE,
                found: params.payload@.len() as usize,
            }),
        },
{
    match ensure_payload_size(params.payload.as_slice()) {
        Err(e) => return Err(e),
        Ok(()) => {},
    }
    let payload = copy_bytes(params.payload.as_slice());
    let tx = TransactionBuilder::new().with_from_id(params.from).with_to_id(params.to).with_amount(
        params.amount,
    ).with_tick(params.tick).with_input_type_and_size(
        params.input_type,
        params.payload.len() as u16,
    ).with_tx_data(TransactionData::Unknown(payload)).build();
    Ok(tx)
}

/// Whether two identities hold the same 32 bytes.
fn same_id(a: &QubicId, b: &QubicId) -> (r: bool)
    ensures
        r <==> a.0@ == b.0@,
{
    let mut i: usize = 0;
    while i < 32
        invariant
            i <= 32,
            forall|j: int| 0 <= j < i ==> a.0@[j] == b.0@[j],
        decreases 32 - i,
    {
        if a.0[i] != b.0[i] {
            return false;
        }
        i = i + 1;
    }
    assert(a.0@ =~= b.0@);
    true
}

/// The checks made before a transaction is signed by the wallet with public key `signer`: the
/// payload fits in the 16-bit size field, and the signer is the source of the transaction.
pub fn check_signing_params(params: &TransactionParams, signer: &QubicId) -> (r: Result<(), TransactionError>)
    ensures
        match r {
            Ok(()) => params.payload@.len() <= MAX_PAYLOAD_SIZE && params.from.0@ == signer.0@,
            Err(TransactionError::PayloadTooLarge { max, found }) => params.payload@.len()
                > MAX_PAYLOAD_SIZE && max == MAX_PAYLOAD_SIZE && found == params.payload@.len(),
            Err(TransactionError::SignerMismatch { expected, found }) => params.payload@.len()
                <= MAX_PAYLOAD_SIZE && params.from.0@ != signer.0@ && expected == *signer && found
                == params.from,
            Err(TransactionError::Qubic(_)) => false,
        },
{
    if params.payload.len() > MAX_PAYLOAD_SIZE {
        return Err(TransactionError::PayloadTooLarge { max: MAX_PAYLOAD_SIZE, found: params.payload.len() });
    }
    if !same_id(&params.from, signer) {
        return Err(TransactionError::SignerMismatch { expected: *signer, found: params.from });
    }
    Ok(())
}

/// The wire form of a transaction.
pub fn transaction_bytes(tx: &TransactionWithData) -> (r: Vec<u8>)
    ensures
        r@ == encode_tx(tx@),
{
    tx.to_bytes()
}

} // verus!

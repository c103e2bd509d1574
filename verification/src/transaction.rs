//! Transaction records and their deterministic byte encodings.
//!
//! A transaction is consumed by the ledger as a finished value. Two encodings
//! are defined over it: the full one, which a block's digest covers, and the
//! content one, which a transaction's own hash covers.

use hdwallet::secp256k1::ecdsa::Signature;
use hdwallet::secp256k1::{PublicKey, SecretKey};
use vstd::prelude::*;
use vstd::string::StringExecFns;
use crate::clock::now_rfc3339;
use crate::codec::{content_bytes, encode_content};
use crate::digest::{sha256, sha256_digest};
use crate::keys::{public_key_bytes, signature_bytes};

verus! {

/// Where a transaction stands with respect to the chain.
#[derive(Debug, Clone, Copy, PartialEq, Eq, Structural)]
pub enum TransactionStatus {
    Pending,
    Mined,
    Rejected,
}

/// What a transaction is for.
#[derive(Debug, Clone, Copy, PartialEq, Eq, Structural)]
pub enum TransactionType {
    /// Reward for sealing a block.
    Coinbase,
    /// Transaction fee.
    Fee,
    /// Transfer between two parties.
    Regular,
}

/// Why a transaction could not be built.
#[derive(Debug, Clone, Copy, PartialEq, Eq, Structural)]
pub enum TransactionError {
    NotEnoughFunds,
}

/// A credit to an address.
#[derive(Debug)]
pub struct TransactionOutput {
    /// The address of the recipient.
    pub recipient_address: String,
    /// The amount of currency being sent.
    pub amount: u64,
}

/// A reference to an earlier output that is being spent.
#[derive(Debug)]
pub struct TransactionInput {
    /// Hash of the transaction that holds the output.
    pub previous_tx_hash: [u8; 32],
    /// Index of the output within that transaction.
    pub index: u32,
    pub signature: String,
    /// The spender's public key in compressed form.
    pub public_key: Vec<u8>,
    pub amount: u64,
    pub nonce: u64,
}

/// What is recorded about a transaction beside its inputs and outputs.
#[derive(Debug)]
pub struct TransactionMetadata {
    /// SHA-256 of the transaction's content encoding.
    pub transaction_hash: [u8; 32],
    pub(crate) timestamp: String,
    pub(crate) status: TransactionStatus,
    pub(crate) kind: TransactionType,
    /// Compact signature over `transaction_hash`.
    pub(crate) signature: Vec<u8>,
}

/// A value transfer: inputs, outputs and metadata.
#[derive(Debug)]
pub struct Transaction {
    pub(crate) inputs: Vec<TransactionInput>,
    pub(crate) outputs: Vec<TransactionOutput>,
    pub(crate) metadata: TransactionMetadata,
}

/// Mathematical value of a [`TransactionOutput`].
pub struct TransactionOutputView {
    pub recipient_address: Seq<char>,
    pub amount: u64,
}

/// Mathematical value of a [`TransactionInput`].
pub struct TransactionInputView {
    pub previous_tx_hash: Seq<u8>,
    pub index: u32,
    pub signature: Seq<char>,
    pub public_key: Seq<u8>,
    pub amount: u64,
    pub nonce: u64,
}

/// Mathematical value of a [`TransactionMetadata`].
pub struct TransactionMetadataView {
    pub transaction_hash: Seq<u8>,
    pub timestamp: Seq<char>,
    pub status: TransactionStatus,
    pub kind: TransactionType,
    pub signature: Seq<u8>,
}

/// Mathematical value of a [`Transaction`].
pub struct TransactionView {
    pub inputs: Seq<TransactionInputView>,
    pub outputs: Seq<TransactionOutputView>,
    pub metadata: TransactionMetadataView,
}

impl View for TransactionOutput {
    type V = TransactionOutputView;

    open spec fn view(&self) -> TransactionOutputView {
        TransactionOutputView { recipient_address: self.recipient_address@, amount: self.amount }
    }
}

impl View for TransactionInput {
    type V = TransactionInputView;

    open spec fn view(&self) -> TransactionInputView {
        TransactionInputView {
            previous_tx_hash: self.previous_tx_hash@,
            index: self.index,
            signature: self.signature@,
            public_key: self.public_key@,
            amount: self.amount,
            nonce: self.nonce,
        }
    }
}

impl View for TransactionMetadata {
    type V = TransactionMetadataView;

    closed spec fn view(&self) -> TransactionMetadataView {
        TransactionMetadataView {
            transaction_hash: self.transaction_hash@,
            timestamp: self.timestamp@,
            status: self.status,
            kind: self.kind,
            signature: self.signature@,
        }
    }
}

impl View for Transaction {
    type V = TransactionView;

    closed spec fn view(&self) -> TransactionView {
        TransactionView {
            inputs: input_views(self.inputs@),
            outputs: output_views(self.outputs@),
            metadata: self.metadata@,
        }
    }
}

/// The values of a sequence of inputs, in order.
pub open spec fn input_views(inputs: Seq<TransactionInput>) -> Seq<TransactionInputView> {
    Seq::new(inputs.len(), |i: int| inputs[i]@)
}

/// The values of a sequence of outputs, in order.
pub open spec fn output_views(outputs: Seq<TransactionOutput>) -> Seq<TransactionOutputView> {
    Seq::new(outputs.len(), |i: int| outputs[i]@)
}

/// The values of a sequence of transactions, in order.
pub open spec fn transaction_views(transactions: Seq<Transaction>) -> Seq<TransactionView> {
    Seq::new(transactions.len(), |i: int| transactions[i]@)
}

impl Clone for TransactionOutput {
    fn clone(&self) -> (copy: Self)
        ensures
            copy@ == self@,
    {
        TransactionOutput { recipient_address: self.recipient_address.clone(), amount: self.amount }
    }
}

impl Clone for TransactionInput {
    fn clone(&self) -> (copy: Self)
        ensures
            copy@ == self@,
    {
        TransactionInput {
            previous_tx_hash: self.previous_tx_hash,
            index: self.index,
            signature: self.signature.clone(),
            public_key: self.public_key.clone(),
            amount: self.amount,
            nonce: self.nonce,
        }
    }
}

impl Clone for TransactionMetadata {
    fn clone(&self) -> (copy: Self)
        ensures
            copy@ == self@,
    {
        TransactionMetadata {
            transaction_hash: self.transaction_hash,
            timestamp: self.timestamp.clone(),
            status: self.status,
            kind: self.kind,
            signature: self.signature.clone(),
        }
    }
}

impl Clone for Transaction {
    fn clone(&self) -> (copy: Self)
        ensures
            copy@ == self@,
    {
        let inputs = self.inputs.clone();
        let outputs = self.outputs.clone();
        assert(input_views(inputs@) =~= input_views(self.inputs@));
        assert(output_views(outputs@) =~= output_views(self.outputs@));
        Transaction { inputs, outputs, metadata: self.metadata.clone() }
    }
}

/// Copies a list of transactions, value for value.
pub fn clone_transactions(transactions: &Vec<Transaction>) -> (copy: Vec<Transaction>)
    ensures
        transaction_views(copy@) == transaction_views(transactions@),
{
    let copy = transactions.clone();
    assert(transaction_views(copy@) =~= transaction_views(transactions@));
    copy
}

impl TransactionMetadata {
    /// The metadata of a transaction, field by field.
    pub fn new(
        transaction_hash: [u8; 32],
        timestamp: String,
        status: TransactionStatus,
        kind: TransactionType,
        signature: Vec<u8>,
    ) -> (metadata: Self)
        ensures
            metadata@ == (TransactionMetadataView {
                transaction_hash: transaction_hash@,
                timestamp: timestamp@,
                status,
                kind,
                signature: signature@,
            }),
    {
        TransactionMetadata { transaction_hash, timestamp, status, kind, signature }
    }

    pub fn transaction_hash(&self) -> (hash: &[u8; 32])
        ensures
            hash@ == self@.transaction_hash,
    {
        &self.transaction_hash
    }

    pub fn timestamp(&self) -> (timestamp: &String)
        ensures
            timestamp@ == self@.timestamp,
    {
        &self.timestamp
    }

    pub fn status(&self) -> (status: TransactionStatus)
        ensures
            status == self@.status,
    {
        self.status
    }

    pub fn kind(&self) -> (kind: TransactionType)
        ensures
            kind == self@.kind,
    {
        self.kind
    }

    pub fn signature(&self) -> (signature: &Vec<u8>)
        ensures
            signature@ == self@.signature,
    {
        &self.signature
    }
}

impl Transaction {
    /// A transaction made of the given parts.
    pub fn new(
        inputs: Vec<TransactionInput>,
        outputs: Vec<TransactionOutput>,
        metadata: TransactionMetadata,
    ) -> (transaction: Self)
        ensures
            transaction@ == (TransactionView {
                inputs: input_views(inputs@),
                outputs: output_views(outputs@),
                metadata: metadata@,
            }),
    {
        Transaction { inputs, outputs, metadata }
    }

    pub fn outputs(&self) -> (outputs: &Vec<TransactionOutput>)
        ensures
            output_views(outputs@) == self@.outputs,
    {
        &self.outputs
    }

    pub fn inputs(&self) -> (inputs: &Vec<TransactionInput>)
        ensures
            input_views(inputs@) == self@.inputs,
    {
        &self.inputs
    }

    pub fn metadata(&self) -> (metadata: &TransactionMetadata)
        ensures
            metadata@ == self@.metadata,
    {
        &self.metadata
    }
}

/// Hashing and signing of transactions.
pub struct TransactionHelper {}

impl TransactionHelper {
    /// The hash of a transaction: SHA-256 over the content encoding of its
    /// inputs, outputs, timestamp and status.
    pub fn generate_transaction_hash(
        inputs: &Vec<TransactionInput>,
        outputs: &Vec<TransactionOutput>,
        timestamp: &String,
        status: &TransactionStatus,
    ) -> (hash: [u8; 32])
        ensures
            hash == sha256(
                content_bytes(input_views(inputs@), output_views(outputs@), timestamp@, *status),
            ),
    {
        let tx_bytes = encode_content(inputs, outputs, timestamp.as_str(), *status);
        sha256_digest(tx_bytes.as_slice())
    }

    /// Signs a transaction hash with the wallet's secret key. Calls
    /// `Secp256k1::sign_ecdsa` on the hash taken as a message. Trusted, and
    /// nothing is claimed of the signature.
    #[verifier::external_body]
    pub fn sign_transaction(secret_key: &SecretKey, tx_hash: [u8; 32]) -> (signature: Signature) {
        let secp = hdwallet::secp256k1::Secp256k1::new();
        let msg = hdwallet::secp256k1::Message::from_slice(&tx_hash).unwrap();
        secp.sign_ecdsa(&msg, secret_key)
    }

    /// Verifies a signature over a transaction hash with the wallet's public
    /// key. Calls `Secp256k1::verify_ecdsa` on the hash taken as a message.
    /// Trusted, and nothing is claimed of the answer.
    #[verifier::external_body]
    pub fn verify_signature(pubkey: &PublicKey, tx_hash: [u8; 32], signature: &Signature) -> (valid:
        bool) {
        let secp = hdwallet::secp256k1::Secp256k1::new();
        let msg = hdwallet::secp256k1::Message::from_slice(&tx_hash).unwrap();
        secp.verify_ecdsa(&msg, signature, pubkey).is_ok()
    }
}

/// The signature text that a coinbase input carries.
pub open spec fn coinbase_input_signature() -> Seq<char> {
    "INITIAL_COINBASE_SIGNATURE"@
}

/// The one input of a coinbase transaction: it spends nothing, so its
/// previous hash is 32 zero bytes and its index zero.
pub open spec fn coinbase_input(public_key: Seq<u8>, amount: u64, nonce: u64)
    -> TransactionInputView {
    TransactionInputView {
        previous_tx_hash: Seq::new(32, |i: int| 0u8),
        index: 0,
        signature: coinbase_input_signature(),
        public_key,
        amount,
        nonce,
    }
}

/// A transaction as it leaves the manager: over the given inputs and
/// outputs, pending, of type coinbase, with the hash of its own content and
/// a compact signature.
pub open spec fn freshly_made(
    transaction: TransactionView,
    inputs: Seq<TransactionInputView>,
    outputs: Seq<TransactionOutputView>,
) -> bool {
    &&& transaction.inputs == inputs
    &&& transaction.outputs == outputs
    &&& transaction.metadata.status == TransactionStatus::Pending
    &&& transaction.metadata.kind == TransactionType::Coinbase
    &&& transaction.metadata.transaction_hash == sha256(
        content_bytes(
            inputs,
            outputs,
            transaction.metadata.timestamp,
            TransactionStatus::Pending,
        ),
    )@
    &&& transaction.metadata.signature.len() == 64
}

/// Construction of transactions.
pub struct TransactionManager {}

impl TransactionManager {
    /// Creates a pending transaction over the given inputs and outputs,
    /// stamped with the time of the call and signed with `private_key`.
    pub fn create_transaction(
        inputs: Vec<TransactionInput>,
        outputs: Vec<TransactionOutput>,
        private_key: SecretKey,
    ) -> (transaction: Transaction)
        ensures
            freshly_made(transaction@, input_views(inputs@), output_views(outputs@)),
    {
        let timestamp = now_rfc3339();
        let status = TransactionStatus::Pending;
        let transaction_hash = TransactionHelper::generate_transaction_hash(
            &inputs,
            &outputs,
            &timestamp,
            &status,
        );
        let signature_obj = TransactionHelper::sign_transaction(&private_key, transaction_hash);
        let signature = signature_bytes(&signature_obj);
        TransactionManager::assemble_transaction(
            inputs,
            outputs,
            timestamp,
            transaction_hash,
            signature,
        )
    }

    /// Puts a transaction together from its parts, the hash and the
    /// signature given.
    pub fn assemble_transaction(
        inputs: Vec<TransactionInput>,
        outputs: Vec<TransactionOutput>,
        timestamp: String,
        transaction_hash: [u8; 32],
        signature: Vec<u8>,
    ) -> (transaction: Transaction)
        ensures
            transaction@ == (TransactionView {
                inputs: input_views(inputs@),
                outputs: output_views(outputs@),
                metadata: TransactionMetadataView {
                    transaction_hash: transaction_hash@,
                    timestamp: timestamp@,
                    status: TransactionStatus::Pending,
                    kind: TransactionType::Coinbase,
                    signature: signature@,
                },
            }),
    {
        let metadata = TransactionMetadata {
            timestamp,
            status: TransactionStatus::Pending,
            transaction_hash,
            kind: TransactionType::Coinbase,
            signature,
        };
        Transaction { inputs, outputs, metadata }
    }

    /// Creates the reward transaction of a block: one input that spends
    /// nothing, and one output of `amount` to `recipient_addr`.
    pub fn create_coinbase_transaction(
        private_key: &SecretKey,
        public_key: &PublicKey,
        recipient_addr: &str,
        amount: u64,
        nonce: u64,
    ) -> (transaction: Transaction)
        ensures
            transaction@.inputs.len() == 1,
            transaction@.inputs[0].public_key.len() == 33,
            transaction@.inputs[0] == coinbase_input(
                transaction@.inputs[0].public_key,
                amount,
                nonce,
            ),
            freshly_made(
                transaction@,
                transaction@.inputs,
                seq![TransactionOutputView { recipient_address: recipient_addr@, amount }],
            ),
    {
        let transaction_input = TransactionInput {
            previous_tx_hash: [0u8; 32],
            index: 0,
            signature: String::from_str("INITIAL_COINBASE_SIGNATURE"),
            public_key: public_key_bytes(public_key),
            amount,
            nonce,
        };
        let ghost key = transaction_input.public_key@;
        assert(transaction_input@ == coinbase_input(key, amount, nonce)) by {
            assert(transaction_input.previous_tx_hash@ =~= Seq::new(32, |i: int| 0u8));
        }
        let inputs = vec![transaction_input];
        let transaction_output = TransactionOutput {
            amount,
            recipient_address: String::from_str(recipient_addr),
        };
        let outputs = vec![transaction_output];
        assert(input_views(inputs@) =~= seq![coinbase_input(key, amount, nonce)]);
        assert(output_views(outputs@) =~= seq![
            TransactionOutputView { recipient_address: recipient_addr@, amount },
        ]);
        TransactionManager::create_transaction(inputs, outputs, *private_key)
    }
}

/// Collects the outputs of a transaction in the making.
pub struct TransactionBuilder {
    outputs: Vec<TransactionOutput>,
}

impl TransactionBuilder {
    /// A builder that holds no output yet.
    pub fn new() -> (builder: Self)
        ensures
            builder.outputs() == Seq::<TransactionOutputView>::empty(),
    {
        let builder = TransactionBuilder { outputs: Vec::new() };
        assert(output_views(builder.outputs@) =~= Seq::<TransactionOutputView>::empty());
        builder
    }

    /// The outputs added so far, in order.
    pub closed spec fn outputs(&self) -> Seq<TransactionOutputView> {
        output_views(self.outputs@)
    }

    /// Add an output to the transaction: `amount` to `recipient`, behind the
    /// outputs already added. Returns the output.
    pub fn add_output(&mut self, recipient: &str, amount: u64) -> (output: TransactionOutput)
        ensures
            output@ == (TransactionOutputView { recipient_address: recipient@, amount }),
            final(self).outputs() == old(self).outputs().push(output@),
    {
        let output = TransactionOutput { recipient_address: String::from_str(recipient), amount };
        self.outputs.push(output.clone());
        assert(output_views(self.outputs@) =~= output_views(old(self).outputs@).push(output@));
        output
    }

    /// Hands out the outputs added so far.
    pub fn into_outputs(self) -> (outputs: Vec<TransactionOutput>)
        ensures
            output_views(outputs@) == self.outputs(),
    {
        self.outputs
    }
}

} // verus!

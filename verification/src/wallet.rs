//! Wallets: a key pair, the accounts derived from it, and the payments they
//! prepare. A wallet holds no connection; sending is left to its owner.

use hdwallet::secp256k1::{PublicKey, SecretKey};
use vstd::prelude::*;
use vstd::string::StringExecFns;
use vstd::utf8::encode_utf8;
use crate::clock::now_rfc3339;
use crate::digest::{hex_string, sha256, sha256_hex, to_hex};
use crate::keys::public_key_bytes;
use crate::text::texts_are_equal;
use crate::transaction::{
    clone_transactions, freshly_made, input_views, output_views, transaction_views, Transaction,
    TransactionInput, TransactionManager, TransactionOutput, TransactionOutputView,
    TransactionView,
};

verus! {

/// Which way a wallet message travels.
#[derive(Debug, Clone, Copy, PartialEq, Eq, Structural)]
pub enum WalletMessageDirection {
    ServerToClient,
    ClientToServer,
}

/// What a wallet message carries.
#[derive(Debug)]
pub enum MessagePayload {
    /// A transaction, from wallet to node.
    TransactionSend { transaction: Transaction },
    /// A transaction history, from node to wallet.
    TransactionHistory { transactions: Vec<Transaction> },
    /// A balance, from node to wallet.
    Balance { balance: u64 },
}

/// Marks the types that a wallet message can carry.
pub trait WalletMessagePayload {

}

impl WalletMessagePayload for MessagePayload {

}

/// A message between a wallet and a node, about one account.
#[derive(Debug)]
pub struct WalletMessage<T> where T: WalletMessagePayload {
    request_id: String,
    account_id: String,
    direction: WalletMessageDirection,
    pub payload: T,
}

impl<T> WalletMessage<T> where T: WalletMessagePayload {
    pub closed spec fn spec_request_id(&self) -> Seq<char> {
        self.request_id@
    }

    pub closed spec fn spec_account_id(&self) -> Seq<char> {
        self.account_id@
    }

    pub closed spec fn spec_direction(&self) -> WalletMessageDirection {
        self.direction
    }

    pub closed spec fn spec_payload(&self) -> T {
        self.payload
    }

    /// A message made of the given parts.
    pub fn new(
        request_id: String,
        account_id: String,
        direction: WalletMessageDirection,
        payload: T,
    ) -> (message: Self)
        ensures
            message.spec_request_id() == request_id@,
            message.spec_account_id() == account_id@,
            message.spec_direction() == direction,
            message.spec_payload() == payload,
    {
        WalletMessage { request_id, account_id, direction, payload }
    }

    pub fn request_id(&self) -> (request_id: &String)
        ensures
            request_id@ == self.spec_request_id(),
    {
        &self.request_id
    }

    pub fn account_id(&self) -> (account_id: &String)
        ensures
            account_id@ == self.spec_account_id(),
    {
        &self.account_id
    }

    pub fn direction(&self) -> (direction: WalletMessageDirection)
        ensures
            direction == self.spec_direction(),
    {
        self.direction
    }

    pub fn payload(&self) -> (payload: &T)
        ensures
            *payload == self.spec_payload(),
    {
        &self.payload
    }
}

/// An address and the transactions seen on it.
#[derive(Debug)]
pub struct Address {
    pub id: String,
    pub transactions: Vec<Transaction>,
}

impl Address {
    pub fn id(&self) -> (id: &String)
        ensures
            id == self.id,
    {
        &self.id
    }
}

/// The address that belongs to a public key: the hex text of the key's
/// compressed bytes, hashed with SHA-256 and rendered as hex again.
pub open spec fn address_text(key_bytes: Seq<u8>) -> Seq<char> {
    hex_string(sha256(encode_utf8(hex_string(key_bytes)))@)
}

/// Derives the address that belongs to the compressed bytes of a public key.
pub fn derive_address(key_bytes: &[u8]) -> (address: String)
    ensures
        address@ == address_text(key_bytes@),
{
    let key_text = to_hex(key_bytes);
    sha256_hex(key_text.as_str().as_bytes())
}

/// Stores account data including address, balance, and transaction history.
#[derive(Debug)]
pub struct Account {
    address: String,
    name: String,
    balance: u64,
    created_at: String,
    transaction_history: Vec<Transaction>,
}

/// Mathematical value of an [`Account`].
pub struct AccountView {
    pub address: Seq<char>,
    pub name: Seq<char>,
    pub balance: u64,
    pub created_at: Seq<char>,
    pub transaction_history: Seq<TransactionView>,
}

impl View for Account {
    type V = AccountView;

    closed spec fn view(&self) -> AccountView {
        AccountView {
            address: self.address@,
            name: self.name@,
            balance: self.balance,
            created_at: self.created_at@,
            transaction_history: transaction_views(self.transaction_history@),
        }
    }
}

/// The values of a sequence of accounts, in order.
pub open spec fn account_views(accounts: Seq<Account>) -> Seq<AccountView> {
    Seq::new(accounts.len(), |i: int| accounts[i]@)
}

impl Clone for Account {
    fn clone(&self) -> (copy: Self)
        ensures
            copy@ == self@,
    {
        Account {
            address: self.address.clone(),
            name: self.name.clone(),
            balance: self.balance,
            created_at: self.created_at.clone(),
            transaction_history: clone_transactions(&self.transaction_history),
        }
    }
}

/// An account as it is created: the address of some 33-byte key, the given
/// name, no balance and no history.
pub open spec fn is_new_account(account: AccountView, name: Seq<char>) -> bool {
    &&& exists|key_bytes: Seq<u8>|
        key_bytes.len() == 33 && account.address == #[trigger] address_text(key_bytes)
    &&& account.name == name
    &&& account.balance == 0
    &&& account.transaction_history == Seq::<TransactionView>::empty()
}

impl Account {
    /// Creates a new account from a public key and name.
    pub fn new(public_key: &PublicKey, name: &str) -> (account: Self)
        ensures
            is_new_account(account@, name@),
    {
        let created_at = now_rfc3339();
        let address = Self::generate_address(public_key);
        let transaction_history: Vec<Transaction> = Vec::new();
        let name = String::from_str(name);
        assert(transaction_views(transaction_history@) =~= Seq::<TransactionView>::empty());
        Account { address, name, created_at, balance: 0, transaction_history }
    }

    /// Generate Account address based on the public key
    fn generate_address(public_key: &PublicKey) -> (address: String)
        ensures
            exists|key_bytes: Seq<u8>|
                key_bytes.len() == 33 && address@ == #[trigger] address_text(key_bytes),
    {
        let key_bytes = public_key_bytes(public_key);
        let address = derive_address(key_bytes.as_slice());
        assert(address@ == address_text(key_bytes@));
        address
    }

    /// Returns the next nonce based on transaction history length.
    pub fn next_nonce(&self) -> (nonce: u64)
        ensures
            nonce == self@.transaction_history.len(),
    {
        self.transaction_history.len() as u64
    }

    pub fn name(&self) -> (name: &String)
        ensures
            name@ == self@.name,
    {
        &self.name
    }

    pub fn transaction_history(&self) -> (history: &Vec<Transaction>)
        ensures
            transaction_views(history@) == self@.transaction_history,
    {
        &self.transaction_history
    }

    pub fn address(&self) -> (address: &String)
        ensures
            address@ == self@.address,
    {
        &self.address
    }

    pub fn balance(&self) -> (balance: u64)
        ensures
            balance == self@.balance,
    {
        self.balance
    }

    pub fn created_at(&self) -> (created_at: &String)
        ensures
            created_at@ == self@.created_at,
    {
        &self.created_at
    }
}

/// Wallet struct managing accounts and keypair
#[derive(Debug)]
pub struct Wallet {
    pub id: String,
    pub name: String,
    pub created_at: String,
    pub accounts: Vec<Account>,
    public_key: PublicKey,
    private_key: SecretKey,
}

/// Some account goes by `name`.
pub open spec fn has_account(accounts: Seq<AccountView>, name: Seq<char>) -> bool {
    exists|i: int| 0 <= i < accounts.len() && accounts[i].name == name
}

/// Account `i` goes by `name`, and no account before it does.
pub open spec fn is_first_account(accounts: Seq<AccountView>, name: Seq<char>, i: int) -> bool {
    &&& 0 <= i < accounts.len()
    &&& accounts[i].name == name
    &&& forall|j: int| 0 <= j < i ==> accounts[j].name != name
}

/// What is said when no account goes by `name`.
pub open spec fn account_not_found(name: Seq<char>) -> Seq<char> {
    "Account with name "@ + name + " not found"@
}

/// The signature text that an input carries until it is signed.
pub open spec fn placeholder_signature() -> Seq<char> {
    "PLACEHOLDER_SIGNATURE"@
}

/// The hash that a payment of `account` spends from: that of the last
/// transaction in its history, or 32 zero bytes where there is none.
pub open spec fn spent_hash(account: AccountView) -> Seq<u8> {
    if account.transaction_history.len() > 0 {
        account.transaction_history.last().metadata.transaction_hash
    } else {
        Seq::new(32, |i: int| 0u8)
    }
}

/// A payment of `amount` from `account` to `recipient`: one input that
/// spends from the account's last transaction, and one output.
pub open spec fn is_payment(
    transaction: TransactionView,
    account: AccountView,
    recipient: Seq<char>,
    amount: u64,
) -> bool {
    &&& transaction.inputs.len() == 1
    &&& transaction.inputs[0].previous_tx_hash == spent_hash(account)
    &&& transaction.inputs[0].index == 0
    &&& transaction.inputs[0].signature == placeholder_signature()
    &&& transaction.inputs[0].public_key.len() == 33
    &&& transaction.inputs[0].amount == amount
    &&& transaction.inputs[0].nonce == account.transaction_history.len()
    &&& freshly_made(
        transaction,
        transaction.inputs,
        seq![TransactionOutputView { recipient_address: recipient, amount }],
    )
}

impl Wallet {
    /// The wallet's accounts, in the order of their creation.
    pub closed spec fn spec_accounts(&self) -> Seq<AccountView> {
        account_views(self.accounts@)
    }

    /// The wallet's key pair.
    pub closed spec fn key_pair(&self) -> (PublicKey, SecretKey) {
        (self.public_key, self.private_key)
    }

    /// The wallet's name.
    pub closed spec fn spec_name(&self) -> Seq<char> {
        self.name@
    }

    /// The wallet's identifier.
    pub closed spec fn spec_id(&self) -> Seq<char> {
        self.id@
    }

    /// Creates a wallet around a key pair, with the given name, an empty
    /// identifier and no account yet.
    pub fn with_keys(name: String, public_key: PublicKey, private_key: SecretKey) -> (wallet: Self)
        ensures
            wallet.spec_accounts() == Seq::<AccountView>::empty(),
            wallet.key_pair() == (public_key, private_key),
            wallet.spec_name() == name@,
            wallet.spec_id() == Seq::<char>::empty(),
    {
        let created_at = now_rfc3339();
        let accounts: Vec<Account> = Vec::new();
        let id = String::new();
        assert(account_views(accounts@) =~= Seq::<AccountView>::empty());
        Wallet { id, public_key, private_key, created_at, accounts, name }
    }

    /// Finds an account by name: a copy of the first that goes by it.
    pub fn find_account(&self, name: &str) -> (found: Result<Account, String>)
        ensures
            match found {
                Ok(account) => exists|i: int|
                    is_first_account(self.spec_accounts(), name@, i) && account@
                        == #[trigger] self.spec_accounts()[i],
                Err(message) => !has_account(self.spec_accounts(), name@) && message@
                    == account_not_found(name@),
            },
    {
        let mut i: usize = 0;
        while i < self.accounts.len()
            invariant
                i <= self.accounts@.len(),
                forall|j: int| 0 <= j < i ==> account_views(self.accounts@)[j].name != name@,
            decreases self.accounts@.len() - i,
        {
            if texts_are_equal(self.accounts[i].name().as_str(), name) {
                let account = self.accounts[i].clone();
                assert(is_first_account(self.spec_accounts(), name@, i as int));
                assert(account@ == self.spec_accounts()[i as int]);
                return Ok(account);
            }
            i += 1;
        }
        let message = String::from_str("Account with name ").concat(name).concat(" not found");
        Err(message)
    }

    /// Create new account for the wallet, based on the `public_key`
    pub fn create_new_account(&mut self, name: &str)
        ensures
            final(self).spec_accounts().len() == old(self).spec_accounts().len() + 1,
            final(self).spec_accounts().drop_last() == old(self).spec_accounts(),
            is_new_account(final(self).spec_accounts().last(), name@),
            final(self).key_pair() == old(self).key_pair(),
            final(self).spec_name() == old(self).spec_name(),
            final(self).spec_id() == old(self).spec_id(),
    {
        let account = Account::new(&self.public_key, name);
        self.accounts.push(account);
        assert(account_views(self.accounts@).drop_last() =~= account_views(old(self).accounts@));
    }

    /// Returns references to wallet accounts
    pub fn accounts(&self) -> (accounts: &Vec<Account>)
        ensures
            account_views(accounts@) == self.spec_accounts(),
    {
        &self.accounts
    }

    /// Accessor for wallet public key
    pub fn public_key(&self) -> (public_key: &PublicKey)
        ensures
            *public_key == self.key_pair().0,
    {
        &self.public_key
    }

    /// Accessor for wallet private key
    pub fn private_key(&self) -> (private_key: &SecretKey)
        ensures
            *private_key == self.key_pair().1,
    {
        &self.private_key
    }

    /// Initiates a payment of `amount` from the account that goes by
    /// `account_name` to `recipient_addr`: creates the signed transaction of
    /// one input and one output that is to be sent to a node. Fails when no
    /// account goes by that name. The wallet is not changed.
    pub fn initiate_payment(&mut self, account_name: &str, recipient_addr: &str, amount: u64) -> (payment:
        Result<Transaction, String>)
        ensures
            *final(self) == *old(self),
            match payment {
                Ok(transaction) => exists|i: int|
                    is_first_account(old(self).spec_accounts(), account_name@, i) && is_payment(
                        transaction@,
                        #[trigger] old(self).spec_accounts()[i],
                        recipient_addr@,
                        amount,
                    ),
                Err(message) => !has_account(old(self).spec_accounts(), account_name@) && message@
                    == account_not_found(account_name@),
            },
    {
        let account = match self.find_account(account_name) {
            Ok(account) => account,
            Err(message) => {
                return Err(message);
            },
        };
        let ghost index = choose|i: int|
            is_first_account(self.spec_accounts(), account_name@, i) && account@
                == #[trigger] self.spec_accounts()[i];
        let history = account.transaction_history();
        let previous_tx_hash: [u8; 32] = if history.len() > 0 {
            *history[history.len() - 1].metadata().transaction_hash()
        } else {
            [0u8; 32]
        };
        assert(previous_tx_hash@ =~= spent_hash(account@));
        let tx_input = TransactionInput {
            previous_tx_hash,
            index: 0,
            signature: String::from_str("PLACEHOLDER_SIGNATURE"),
            public_key: public_key_bytes(&self.public_key),
            amount,
            nonce: account.next_nonce(),
        };
        let tx_output = TransactionOutput {
            amount,
            recipient_address: String::from_str(recipient_addr),
        };
        let ghost input_view = tx_input@;
        let inputs = vec![tx_input];
        let outputs = vec![tx_output];
        assert(input_views(inputs@) =~= seq![input_view]);
        assert(output_views(outputs@) =~= seq![
            TransactionOutputView { recipient_address: recipient_addr@, amount },
        ]);
        let transaction = TransactionManager::create_transaction(inputs, outputs, self.private_key);
        assert(is_payment(transaction@, self.spec_accounts()[index], recipient_addr@, amount));
        Ok(transaction)
    }
}

impl Clone for Wallet {
    fn clone(&self) -> (copy: Self)
        ensures
            copy.spec_accounts() == self.spec_accounts(),
            copy.key_pair() == self.key_pair(),
            copy.spec_name() == self.spec_name(),
            copy.spec_id() == self.spec_id(),
    {
        let accounts = self.accounts.clone();
        assert(account_views(accounts@) =~= account_views(self.accounts@));
        Wallet {
            id: self.id.clone(),
            name: self.name.clone(),
            created_at: self.created_at.clone(),
            accounts,
            public_key: self.public_key,
            private_key: self.private_key,
        }
    }
}

} // verus!

//! Who listens to what: the topics a client can subscribe to, and the
//! registry of subscribers by event topic.

use vstd::prelude::*;
use vstd::string::StringExecFns;
use crate::comms::{EventTopic, Message};

verus! {

/// What a client asks to be told about.
#[derive(Debug, Clone, Copy, PartialEq, Eq, Hash, Structural)]
pub enum SubscriptionTopic {
    Transactions,
    InitiateTransaction,
    WalletBalance,
    BlockchainStatus,
}

/// A request to change a subscription.
#[derive(Debug)]
pub struct SubscriptionMessage {
    pub action: String,
    pub topic: SubscriptionTopic,
}

/// What a wallet can ask of a node over its socket.
#[derive(Debug, Clone, Copy, PartialEq, Eq, Structural)]
pub enum BlockchainWebsocketMessage {
    NewTransaction,
    QueryUtxo,
    WalletBalance,
    Ping,
    Other,
}

/// The name under which a subscription topic goes over the wire.
pub open spec fn subscription_topic_name(topic: SubscriptionTopic) -> Seq<char> {
    match topic {
        SubscriptionTopic::Transactions => "transactions"@,
        SubscriptionTopic::InitiateTransaction => "initiate_transaction"@,
        SubscriptionTopic::WalletBalance => "wallet_balance"@,
        SubscriptionTopic::BlockchainStatus => "blockchain_status"@,
    }
}

impl SubscriptionTopic {
    /// The topic's name in snake case.
    pub fn to_text(&self) -> (text: String)
        ensures
            text@ == subscription_topic_name(*self),
    {
        match self {
            SubscriptionTopic::Transactions => String::from_str("transactions"),
            SubscriptionTopic::InitiateTransaction => String::from_str("initiate_transaction"),
            SubscriptionTopic::WalletBalance => String::from_str("wallet_balance"),
            SubscriptionTopic::BlockchainStatus => String::from_str("blockchain_status"),
        }
    }
}

/// `clients` without any occurrence of `client`, the others in their order.
pub open spec fn without(clients: Seq<usize>, client: usize) -> Seq<usize>
    decreases clients.len(),
{
    if clients.len() == 0 {
        Seq::empty()
    } else if clients.last() == client {
        without(clients.drop_last(), client)
    } else {
        without(clients.drop_last(), client).push(clients.last())
    }
}

/// Tracks client subscriptions to topics. Each topic has its subscribers in
/// the order in which they subscribed; a client that subscribes twice is
/// listed twice.
#[derive(Debug)]
pub struct SubscriptionManager {
    blockchain_status: Vec<usize>,
    blockchain_ping: Vec<usize>,
    new_block: Vec<usize>,
    tx_confirmed: Vec<usize>,
    mempool_tx_added: Vec<usize>,
    mempool_tx_removed: Vec<usize>,
}

impl SubscriptionManager {
    /// The subscribers of `topic`, in order.
    pub closed spec fn subscribers(&self, topic: EventTopic) -> Seq<usize> {
        match topic {
            EventTopic::BlockchainStatus => self.blockchain_status@,
            EventTopic::BlockchainPing => self.blockchain_ping@,
            EventTopic::NewBlock => self.new_block@,
            EventTopic::TxConfirmed => self.tx_confirmed@,
            EventTopic::MempoolTxAdded => self.mempool_tx_added@,
            EventTopic::MempoolTxRemoved => self.mempool_tx_removed@,
        }
    }

    /// A registry in which nobody is subscribed to anything.
    pub fn new() -> (manager: Self)
        ensures
            forall|topic: EventTopic| manager.subscribers(topic) == Seq::<usize>::empty(),
    {
        SubscriptionManager {
            blockchain_status: Vec::new(),
            blockchain_ping: Vec::new(),
            new_block: Vec::new(),
            tx_confirmed: Vec::new(),
            mempool_tx_added: Vec::new(),
            mempool_tx_removed: Vec::new(),
        }
    }

    /// Adds `client_id` behind the subscribers of `topic`.
    pub fn subscribe(&mut self, client_id: usize, topic: EventTopic)
        ensures
            final(self).subscribers(topic) == old(self).subscribers(topic).push(client_id),
            forall|other: EventTopic|
                other != topic ==> final(self).subscribers(other) == old(self).subscribers(other),
    {
        match topic {
            EventTopic::BlockchainStatus => self.blockchain_status.push(client_id),
            EventTopic::BlockchainPing => self.blockchain_ping.push(client_id),
            EventTopic::NewBlock => self.new_block.push(client_id),
            EventTopic::TxConfirmed => self.tx_confirmed.push(client_id),
            EventTopic::MempoolTxAdded => self.mempool_tx_added.push(client_id),
            EventTopic::MempoolTxRemoved => self.mempool_tx_removed.push(client_id),
        }
    }

    /// Removes every occurrence of `client_id` from the subscribers of
    /// `topic`.
    pub fn unsubscribe(&mut self, client_id: &usize, topic: &EventTopic)
        ensures
            final(self).subscribers(*topic) == without(old(self).subscribers(*topic), *client_id),
            forall|other: EventTopic|
                other != *topic ==> final(self).subscribers(other) == old(self).subscribers(other),
    {
        match topic {
            EventTopic::BlockchainStatus => {
                self.blockchain_status = remove_client(&self.blockchain_status, *client_id);
            },
            EventTopic::BlockchainPing => {
                self.blockchain_ping = remove_client(&self.blockchain_ping, *client_id);
            },
            EventTopic::NewBlock => {
                self.new_block = remove_client(&self.new_block, *client_id);
            },
            EventTopic::TxConfirmed => {
                self.tx_confirmed = remove_client(&self.tx_confirmed, *client_id);
            },
            EventTopic::MempoolTxAdded => {
                self.mempool_tx_added = remove_client(&self.mempool_tx_added, *client_id);
            },
            EventTopic::MempoolTxRemoved => {
                self.mempool_tx_removed = remove_client(&self.mempool_tx_removed, *client_id);
            },
        }
    }

    /// Returns copy of the subscribers of `topic`.
    pub fn get_subscribers(&self, topic: &EventTopic) -> (subscribers: Vec<usize>)
        ensures
            subscribers@ == self.subscribers(*topic),
    {
        match topic {
            EventTopic::BlockchainStatus => self.blockchain_status.clone(),
            EventTopic::BlockchainPing => self.blockchain_ping.clone(),
            EventTopic::NewBlock => self.new_block.clone(),
            EventTopic::TxConfirmed => self.tx_confirmed.clone(),
            EventTopic::MempoolTxAdded => self.mempool_tx_added.clone(),
            EventTopic::MempoolTxRemoved => self.mempool_tx_removed.clone(),
        }
    }
}

/// The node's ear for wallets: it decides what a message from a client
/// changes, and who is told of an event. Moving the messages is left to its
/// owner.
#[derive(Debug)]
pub struct BlockchainListener {
    subscription_manager: SubscriptionManager,
}

impl BlockchainListener {
    /// The subscribers of `topic`, in order.
    pub closed spec fn subscribers(&self, topic: EventTopic) -> Seq<usize> {
        self.subscription_manager.subscribers(topic)
    }

    /// A listener to which nobody is subscribed.
    pub fn new() -> (listener: Self)
        ensures
            forall|topic: EventTopic| listener.subscribers(topic) == Seq::<usize>::empty(),
    {
        BlockchainListener { subscription_manager: SubscriptionManager::new() }
    }

    /// What a message from a client changes: the sender of an event is
    /// subscribed to the event's topic; a request or a response changes
    /// nothing. Says whether the client was subscribed.
    pub fn on_message<T>(&mut self, client_id: usize, message: &Message<T>) -> (subscribed: bool)
        ensures
            subscribed == (message.topic() is Some),
            match message.topic() {
                Some(topic) => {
                    &&& final(self).subscribers(topic) == old(self).subscribers(topic).push(
                        client_id,
                    )
                    &&& forall|other: EventTopic|
                        other != topic ==> final(self).subscribers(other) == old(
                            self,
                        ).subscribers(other)
                },
                None => *final(self) == *old(self),
            },
    {
        match message.event_topic() {
            Some(topic) => {
                self.subscription_manager.subscribe(client_id, topic);
                true
            },
            None => false,
        }
    }

    /// Removes every subscription of `client_id` to `topic`.
    pub fn unsubscribe(&mut self, client_id: &usize, topic: &EventTopic)
        ensures
            final(self).subscribers(*topic) == without(old(self).subscribers(*topic), *client_id),
            forall|other: EventTopic|
                other != *topic ==> final(self).subscribers(other) == old(self).subscribers(other),
    {
        self.subscription_manager.unsubscribe(client_id, topic);
    }

    /// The clients to tell of an event on `topic`, in the order in which
    /// they subscribed.
    pub fn recipients(&self, topic: &EventTopic) -> (clients: Vec<usize>)
        ensures
            clients@ == self.subscribers(*topic),
    {
        self.subscription_manager.get_subscribers(topic)
    }
}

/// The clients of a list other than `client`, in their order.
fn remove_client(clients: &Vec<usize>, client: usize) -> (kept: Vec<usize>)
    ensures
        kept@ == without(clients@, client),
{
    let mut kept: Vec<usize> = Vec::new();
    let mut i: usize = 0;
    while i < clients.len()
        invariant
            i <= clients.len(),
            kept@ == without(clients@.take(i as int), client),
        decreases clients.len() - i,
    {
        assert(clients@.take(i + 1).drop_last() =~= clients@.take(i as int));
        if clients[i] != client {
            kept.push(clients[i]);
        }
        i += 1;
    }
    assert(clients@.take(i as int) =~= clients@);
    kept
}

} // verus!

//! The messages that nodes and wallets exchange.

use vstd::prelude::*;
use vstd::string::StringExecFns;

verus! {

/// What a request asks for.
#[derive(Debug, Clone, Copy, PartialEq, Eq, Structural)]
pub enum RequestType {
    GetBalance,
    SubmitTransaction,
    GetMempool,
}

/// Which way a message travels.
#[derive(Debug, Clone, Copy, PartialEq, Eq, Structural)]
pub enum Direction {
    ClientToServer,
    ServerToClient,
}

/// What an event is about.
#[derive(Debug, Clone, Copy, PartialEq, Eq, Hash, Structural)]
pub enum EventTopic {
    BlockchainStatus,
    BlockchainPing,
    NewBlock,
    TxConfirmed,
    MempoolTxAdded,
    MempoolTxRemoved,
}

/// A message with a payload of type `T`.
#[derive(Debug)]
#[allow(inconsistent_fields)]
pub enum Message<T> {
    Request { id: String, kind: RequestType, payload: T },
    Response { id: String, status: String, data: Option<T>, error: Option<String> },
    Event { id: String, topic: EventTopic, data: T },
}

/// The name under which a topic goes over the wire.
pub open spec fn topic_name(topic: EventTopic) -> Seq<char> {
    match topic {
        EventTopic::BlockchainStatus => "blockchain_status"@,
        EventTopic::BlockchainPing => "blockchain_ping"@,
        EventTopic::NewBlock => "new_block"@,
        EventTopic::TxConfirmed => "tx_confirmed"@,
        EventTopic::MempoolTxAdded => "mempool_tx_added"@,
        EventTopic::MempoolTxRemoved => "mempool_tx_removed"@,
    }
}

impl EventTopic {
    /// The topic's name in snake case.
    pub fn to_text(&self) -> (text: String)
        ensures
            text@ == topic_name(*self),
    {
        match self {
            EventTopic::BlockchainStatus => String::from_str("blockchain_status"),
            EventTopic::BlockchainPing => String::from_str("blockchain_ping"),
            EventTopic::NewBlock => String::from_str("new_block"),
            EventTopic::TxConfirmed => String::from_str("tx_confirmed"),
            EventTopic::MempoolTxAdded => String::from_str("mempool_tx_added"),
            EventTopic::MempoolTxRemoved => String::from_str("mempool_tx_removed"),
        }
    }
}

impl<T> Message<T> {
    /// The topic of an event; nothing for a request or a response.
    pub open spec fn topic(&self) -> Option<EventTopic> {
        match *self {
            Message::Event { topic, .. } => Some(topic),
            _ => None,
        }
    }

    /// The topic of an event; nothing for a request or a response.
    pub fn event_topic(&self) -> (topic: Option<EventTopic>)
        ensures
            topic == self.topic(),
    {
        match self {
            Message::Event { topic, .. } => Some(*topic),
            _ => None,
        }
    }
}

} // verus!

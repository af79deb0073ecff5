//! What the NATS monitoring endpoints report, as plain values: `/varz`
//! (server statistics) and `/jsz` (JetStream statistics with stream and
//! consumer details). Every field defaults to zero, empty or none.

use vstd::prelude::*;

verus! {

/// Server statistics from `/varz`.
///
/// `cpu_bits` holds the bit pattern of the `f64` CPU percentage that the
/// server reports (`f64::to_bits`); the library carries it unchanged.
#[derive(Debug)]
pub struct Varz {
    pub server_id: String,
    pub server_name: String,
    pub version: String,
    pub uptime: String,
    pub cpu_bits: u64,
    pub mem: i64,
    pub connections: u64,
    pub total_connections: u64,
    pub subscriptions: u32,
    pub slow_consumers: u64,
    pub in_msgs: u64,
    pub out_msgs: u64,
    pub in_bytes: u64,
    pub out_bytes: u64,
    pub routes: u32,
    pub remotes: u32,
    pub leafnodes: u32,
}

impl Varz {
    /// Every field zero or empty.
    pub open spec fn is_blank(&self) -> bool {
        &&& self.server_id@.len() == 0
        &&& self.server_name@.len() == 0
        &&& self.version@.len() == 0
        &&& self.uptime@.len() == 0
        &&& self.cpu_bits == 0
        &&& self.mem == 0
        &&& self.connections == 0
        &&& self.total_connections == 0
        &&& self.subscriptions == 0
        &&& self.slow_consumers == 0
        &&& self.in_msgs == 0
        &&& self.out_msgs == 0
        &&& self.in_bytes == 0
        &&& self.out_bytes == 0
        &&& self.routes == 0
        &&& self.remotes == 0
        &&& self.leafnodes == 0
    }
}

impl Default for Varz {
    fn default() -> (v: Self)
        ensures
            v.is_blank(),
    {
        Varz {
            server_id: String::new(),
            server_name: String::new(),
            version: String::new(),
            uptime: String::new(),
            cpu_bits: 0,
            mem: 0,
            connections: 0,
            total_connections: 0,
            subscriptions: 0,
            slow_consumers: 0,
            in_msgs: 0,
            out_msgs: 0,
            in_bytes: 0,
            out_bytes: 0,
            routes: 0,
            remotes: 0,
            leafnodes: 0,
        }
    }
}

/// JetStream statistics from `/jsz`.
#[derive(Debug)]
pub struct Jsz {
    pub streams: u64,
    pub consumers: u64,
    pub messages: u64,
    pub bytes: u64,
    pub api: JszApi,
    pub account_details: Vec<AccountDetail>,
}

impl Jsz {
    /// Every count zero, no account details.
    pub open spec fn is_blank(&self) -> bool {
        &&& self.streams == 0
        &&& self.consumers == 0
        &&& self.messages == 0
        &&& self.bytes == 0
        &&& self.api.total == 0
        &&& self.api.errors == 0
        &&& self.account_details@.len() == 0
    }
}

impl Default for Jsz {
    fn default() -> (j: Self)
        ensures
            j.is_blank(),
    {
        Jsz {
            streams: 0,
            consumers: 0,
            messages: 0,
            bytes: 0,
            api: JszApi::default(),
            account_details: Vec::new(),
        }
    }
}

/// JetStream API call counters.
#[derive(Debug)]
pub struct JszApi {
    pub total: u64,
    pub errors: u64,
}

impl Default for JszApi {
    fn default() -> (a: Self)
        ensures
            a.total == 0,
            a.errors == 0,
    {
        JszApi { total: 0, errors: 0 }
    }
}

/// The streams of one account.
#[derive(Debug)]
pub struct AccountDetail {
    pub stream_detail: Vec<StreamDetail>,
}

impl Default for AccountDetail {
    fn default() -> (a: Self)
        ensures
            a.stream_detail@.len() == 0,
    {
        AccountDetail { stream_detail: Vec::new() }
    }
}

/// One stream, its state and its consumers.
#[derive(Debug)]
pub struct StreamDetail {
    pub name: String,
    pub state: StreamState,
    pub consumer_detail: Vec<ConsumerDetail>,
}

impl Default for StreamDetail {
    fn default() -> (s: Self)
        ensures
            s.name@.len() == 0,
            s.state.messages == 0,
            s.state.bytes == 0,
            s.state.consumer_count == 0,
            s.consumer_detail@.len() == 0,
    {
        StreamDetail { name: String::new(), state: StreamState::default(), consumer_detail: Vec::new() }
    }
}

/// Message, byte and consumer counts of a stream.
#[derive(Debug)]
pub struct StreamState {
    pub messages: u64,
    pub bytes: u64,
    pub consumer_count: u64,
}

impl Default for StreamState {
    fn default() -> (s: Self)
        ensures
            s.messages == 0,
            s.bytes == 0,
            s.consumer_count == 0,
    {
        StreamState { messages: 0, bytes: 0, consumer_count: 0 }
    }
}

/// One consumer of a stream.
#[derive(Debug)]
pub struct ConsumerDetail {
    pub stream_name: String,
    pub name: String,
    pub delivered: ConsumerSeqInfo,
    pub ack_floor: ConsumerSeqInfo,
    pub num_ack_pending: u64,
    pub num_redelivered: u64,
    pub num_waiting: u64,
    pub num_pending: u64,
}

impl Default for ConsumerDetail {
    fn default() -> (c: Self)
        ensures
            c.stream_name@.len() == 0,
            c.name@.len() == 0,
            c.delivered.consumer_seq == 0,
            c.delivered.stream_seq == 0,
            c.ack_floor.consumer_seq == 0,
            c.ack_floor.stream_seq == 0,
            c.num_ack_pending == 0,
            c.num_redelivered == 0,
            c.num_waiting == 0,
            c.num_pending == 0,
    {
        ConsumerDetail {
            stream_name: String::new(),
            name: String::new(),
            delivered: ConsumerSeqInfo::default(),
            ack_floor: ConsumerSeqInfo::default(),
            num_ack_pending: 0,
            num_redelivered: 0,
            num_waiting: 0,
            num_pending: 0,
        }
    }
}

/// A pair of consumer and stream sequence numbers.
#[derive(Debug)]
pub struct ConsumerSeqInfo {
    pub consumer_seq: u64,
    pub stream_seq: u64,
}

impl Default for ConsumerSeqInfo {
    fn default() -> (s: Self)
        ensures
            s.consumer_seq == 0,
            s.stream_seq == 0,
    {
        ConsumerSeqInfo { consumer_seq: 0, stream_seq: 0 }
    }
}

} // verus!

//! The cluster plane: the identity of a node, the usage updates that nodes
//! broadcast, and what a node does on each event of its gossip loop.
//!
//! The failure detector, its socket and its timer are the caller's.

use crate::networking::proxy_protocol::SocketAddr;
use bincode::error::DecodeError;
use vstd::prelude::*;
use vstd::string::StringExecFns;

verus! {

/// The time between two gossip rounds, in milliseconds.
pub const TICK_MS: u64 = 100;

/// The largest datagram that the gossip socket takes.
pub const MAX_DATAGRAM: usize = 65535;

/// What nodes tell each other.
#[derive(Debug, Clone, PartialEq)]
pub enum BroadcastMessage {
    /// Node `node_id` counts `usage` under `key`.
    UsageUpdate { node_id: u64, key: String, usage: u32 },
}

impl View for BroadcastMessage {
    type V = (u64, Seq<char>, u32);

    open spec fn view(&self) -> (u64, Seq<char>, u32) {
        match *self {
            BroadcastMessage::UsageUpdate { node_id, key, usage } => (node_id, key@, usage),
        }
    }
}

/// What makes a broadcast replace an earlier one: the node and the key.
#[derive(Debug, Clone, PartialEq, Eq, PartialOrd, Ord)]
pub struct BroadcastKey {
    node_id: u64,
    key: String,
}

impl View for BroadcastKey {
    type V = (u64, Seq<char>);

    closed spec fn view(&self) -> (u64, Seq<char>) {
        (self.node_id, self.key@)
    }
}

impl BroadcastKey {
    pub fn new(node_id: u64, key: String) -> (made: BroadcastKey)
        ensures
            made@ == (node_id, key@),
    {
        BroadcastKey { node_id, key }
    }

    pub fn node_id(&self) -> (id: u64)
        ensures
            id == self@.0,
    {
        self.node_id
    }

    pub fn key(&self) -> (key: &String)
        ensures
            key@ == self@.1,
    {
        &self.key
    }

    /// Whether a broadcast with this key replaces one with key `other`: only
    /// where node and key are the same.
    pub fn invalidates(&self, other: &BroadcastKey) -> (replaces: bool)
        ensures
            replaces == (self@ == other@),
    {
        self.node_id == other.node_id && self.key == other.key
    }
}

/// Who a node is: its address and a number drawn at random.
#[derive(Debug, Clone, Copy)]
pub struct NodeIdentity {
    pub addr: SocketAddr,
    pub id: u64,
}

/// `rand::random`: a number of which nothing is known.
#[verifier::external_body]
fn random_id() -> u64 {
    rand::random()
}

impl NodeIdentity {
    /// This node under the new number `id`, at the same address.
    pub fn renewed_with(&self, id: u64) -> (renewed: NodeIdentity)
        ensures
            renewed.addr == self.addr,
            renewed.id == id,
    {
        NodeIdentity { addr: self.addr, id }
    }

    /// This node under a new number, at the same address: what a node becomes
    /// to rejoin after the others gave it up.
    pub fn renew(&self) -> (renewed: Option<NodeIdentity>)
        ensures
            renewed matches Some(identity) && identity.addr == self.addr,
    {
        Some(self.renewed_with(random_id()))
    }

    pub fn addr(&self) -> (addr: SocketAddr)
        ensures
            addr == self.addr,
    {
        self.addr
    }

    /// Whether this identity wins over another one with the same address:
    /// always.
    pub fn win_addr_conflict(&self, _other: &NodeIdentity) -> (wins: bool)
        ensures
            wins,
    {
        true
    }
}

/// What the application asks of the cluster plane.
#[derive(Debug)]
pub enum ClusterCommand {
    /// Tell the others that this node counts this usage under this key.
    BroadcastUsage(String, u32),
}

#[verifier::external_type_specification]
#[verifier::external_body]
pub struct ExDecodeError(DecodeError);

/// Why a broadcast was not taken.
#[derive(Debug)]
pub enum ClusterError {
    /// The bytes are not a message.
    Bincode(DecodeError),
    /// Anything else.
    Anyhow(String),
}

/// The number that stands for a usage update on the wire.
pub const USAGE_UPDATE: u32 = 0;

/// What `bincode` reads from the start of `data` as a number, a 64-bit
/// number, a text and a number, in its standard configuration with a limit of
/// `MAX_DATAGRAM` bytes; `None` where it reads no such thing, or where the
/// bytes announce more than the limit.
pub uninterp spec fn wire_decoded(data: Seq<u8>) -> Option<(u32, u64, Seq<char>, u32)>;

/// What `bincode`, in its standard configuration, writes for a number, a
/// 64-bit number, a text and a number; `None` where it fails.
pub uninterp spec fn wire_encoded(kind: u32, node_id: u64, key: Seq<char>, usage: u32) -> Option<
    Seq<u8>,
>;

/// The kind of message that `data` holds, where it holds one.
pub open spec fn decoded_kind(data: Seq<u8>) -> Option<u32> {
    match wire_decoded(data) {
        Some((kind, _, _, _)) => Some(kind),
        None => None,
    }
}

/// `bincode::decode_from_slice` to a number, a 64-bit number, a text and a
/// number, in the standard configuration with a limit of `MAX_DATAGRAM`
/// bytes. Under a limit the decoder refuses a length that goes beyond it
/// before it makes room for the text.
#[verifier::external_body]
fn decode_wire(data: &[u8]) -> (res: Result<(u32, u64, String, u32), DecodeError>)
    ensures
        match res {
            Ok(fields) => wire_decoded(data@) == Some((fields.0, fields.1, fields.2@, fields.3)),
            Err(_) => wire_decoded(data@) is None,
        },
{
    let config = bincode::config::standard().with_limit::<MAX_DATAGRAM>();
    match bincode::decode_from_slice(data, config) {
        Ok((fields, _)) => Ok(fields),
        Err(e) => Err(e),
    }
}

/// `DecodeError::Other`: the error of the decoder for a message of a kind that
/// is none of the known ones.
#[verifier::external_body]
fn unexpected_kind() -> DecodeError {
    DecodeError::Other("unknown kind of broadcast")
}

/// `bincode::encode_to_vec` of a number, a 64-bit number, a text and a
/// number, in the standard configuration.
#[verifier::external_body]
fn encode_wire(kind: u32, node_id: u64, key: &str, usage: u32) -> (res: Option<Vec<u8>>)
    ensures
        match res {
            Some(bytes) => wire_encoded(kind, node_id, key@, usage) == Some(bytes@),
            None => wire_encoded(kind, node_id, key@, usage) is None,
        },
{
    bincode::encode_to_vec((kind, node_id, key, usage), bincode::config::standard()).ok()
}

/// A broadcast that was taken: its key, and the update to pass on to the
/// application.
#[derive(Debug)]
pub struct Received {
    pub key: BroadcastKey,
    pub message: BroadcastMessage,
}

/// What becomes of fields read from the wire: a usage update is taken, with
/// the node and the key as its key; any other kind is not.
pub fn accept_fields(kind: u32, node_id: u64, key: String, usage: u32) -> (res: Option<Received>)
    ensures
        match res {
            Some(received) => kind == USAGE_UPDATE && received.key@ == (node_id, key@)
                && received.message@ == (node_id, key@, usage),
            None => kind != USAGE_UPDATE,
        },
{
    if kind == USAGE_UPDATE {
        Some(
            Received {
                key: BroadcastKey { node_id, key: key.clone() },
                message: BroadcastMessage::UsageUpdate { node_id, key, usage },
            },
        )
    } else {
        None
    }
}

/// Takes a broadcast as it came from another node. Bytes that are no message,
/// and a message of an unknown kind, are refused with the decoder's error.
pub fn receive_item(data: &[u8]) -> (res: Result<Received, ClusterError>)
    ensures
        match res {
            Ok(received) => wire_decoded(data@) == Some(
                (USAGE_UPDATE, received.message@.0, received.message@.1, received.message@.2),
            ) && received.key@ == (received.message@.0, received.message@.1),
            Err(e) => e is Bincode && decoded_kind(data@) != Some(USAGE_UPDATE),
        },
{
    match decode_wire(data) {
        Ok((kind, node_id, key, usage)) => match accept_fields(kind, node_id, key, usage) {
            Some(received) => Ok(received),
            None => Err(ClusterError::Bincode(unexpected_kind())),
        },
        Err(e) => Err(ClusterError::Bincode(e)),
    }
}

/// Something that the gossip loop wakes up for.
pub enum ClusterEvent {
    /// The gossip timer fired.
    Tick,
    /// A datagram of this many bytes arrived.
    Datagram(usize),
    /// The application asks for something.
    Command(ClusterCommand),
}

/// What the gossip loop does for an event, before it sends what the failure
/// detector has queued and reports what it has noticed.
pub enum ClusterAction {
    /// Start a gossip round.
    Gossip,
    /// Hand the first bytes of the receive buffer to the failure detector.
    HandleData(usize),
    /// Queue these bytes as a broadcast.
    AddBroadcast(Vec<u8>),
    /// Nothing.
    Skip,
}

/// The cluster plane of a node.
pub struct Cluster {
    identity: NodeIdentity,
}

impl Cluster {
    /// Who this node is.
    pub closed spec fn spec_identity(&self) -> NodeIdentity {
        self.identity
    }

    /// The cluster plane of the node that listens at `bind_addr` and goes by
    /// the number `id`.
    pub fn with_identity(bind_addr: SocketAddr, id: u64) -> (cluster: Cluster)
        ensures
            cluster.spec_identity().addr == bind_addr,
            cluster.spec_identity().id == id,
    {
        Cluster { identity: NodeIdentity { addr: bind_addr, id } }
    }

    /// The cluster plane of the node that listens at `bind_addr`, under a
    /// number drawn at random.
    pub fn new(bind_addr: SocketAddr) -> (cluster: Cluster)
        ensures
            cluster.spec_identity().addr == bind_addr,
    {
        Self::with_identity(bind_addr, random_id())
    }

    pub fn identity(&self) -> (identity: NodeIdentity)
        ensures
            identity == self.spec_identity(),
    {
        self.identity
    }

    /// The bytes to broadcast for a command: the usage update of this node.
    pub fn broadcast_for(&self, command: &ClusterCommand) -> (bytes: Option<Vec<u8>>)
        ensures
            match (*command, bytes) {
                (ClusterCommand::BroadcastUsage(key, usage), Some(b)) => wire_encoded(
                    USAGE_UPDATE,
                    self.spec_identity().id,
                    key@,
                    usage,
                ) == Some(b@),
                (ClusterCommand::BroadcastUsage(key, usage), None) => wire_encoded(
                    USAGE_UPDATE,
                    self.spec_identity().id,
                    key@,
                    usage,
                ) is None,
            },
    {
        match command {
            ClusterCommand::BroadcastUsage(key, usage) => encode_wire(
                USAGE_UPDATE,
                self.identity.id,
                key.as_str(),
                *usage,
            ),
        }
    }

    /// What the gossip loop does for `event`: a tick starts a gossip round, a
    /// datagram goes to the failure detector, cut to what the socket takes,
    /// and a command becomes a broadcast where it can be written.
    pub fn run(&self, event: &ClusterEvent) -> (action: ClusterAction)
        ensures
            match (*event, action) {
                (ClusterEvent::Tick, ClusterAction::Gossip) => true,
                (ClusterEvent::Datagram(len), ClusterAction::HandleData(n)) => n == if len
                    <= MAX_DATAGRAM {
                    len
                } else {
                    MAX_DATAGRAM
                },
                (
                    ClusterEvent::Command(ClusterCommand::BroadcastUsage(key, usage)),
                    ClusterAction::AddBroadcast(b),
                ) => wire_encoded(USAGE_UPDATE, self.spec_identity().id, key@, usage) == Some(b@),
                (
                    ClusterEvent::Command(ClusterCommand::BroadcastUsage(key, usage)),
                    ClusterAction::Skip,
                ) => wire_encoded(USAGE_UPDATE, self.spec_identity().id, key@, usage) is None,
                _ => false,
            },
    {
        match event {
            ClusterEvent::Tick => ClusterAction::Gossip,
            ClusterEvent::Datagram(len) => ClusterAction::HandleData(
                if *len <= MAX_DATAGRAM {
                    *len
                } else {
                    MAX_DATAGRAM
                },
            ),
            ClusterEvent::Command(command) => match self.broadcast_for(command) {
                Some(bytes) => ClusterAction::AddBroadcast(bytes),
                None => ClusterAction::Skip,
            },
        }
    }
}

} // verus!

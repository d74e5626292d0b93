//! Nodes, applications and clusters as the contract records them.

use vstd::prelude::*;
use crate::address::{decode_address, AddressError, Ipv4Octets, ip_of, peer_id_of, ADDRESS_LEN};
use crate::storage::Storage;
use crate::word::Word;

verus! {

/// A 160-bit account address.
pub type Address = [u8; 20];

/// The nodes an application was scheduled onto.
#[derive(Debug, Clone, PartialEq, Eq)]
pub struct Cluster {
    /// Time, in seconds of the Unix epoch, at which the cluster became active.
    pub genesis_time: u32,
    /// Validator keys of the member nodes; position is the member's index.
    pub node_ids: Vec<Word>,
}

impl Cluster {
    pub fn new(genesis_time: u32, node_ids: Vec<Word>) -> (r: Cluster)
        ensures
            r.genesis_time == genesis_time,
            r.node_ids == node_ids,
    {
        Cluster { genesis_time, node_ids }
    }
}

/// An application registered with the contract.
#[derive(Debug, Clone, PartialEq, Eq)]
pub struct App {
    pub app_id: u64,
    pub storage_hash: Word,
    pub storage_receipt: Word,
    pub storage_type: Storage,
    pub cluster_size: u8,
    pub owner: Address,
    pub pin_to_nodes: Option<Vec<Word>>,
    /// Present exactly when the application has been scheduled.
    pub cluster: Option<Cluster>,
}

impl App {
    pub fn new(
        app_id: u64,
        storage_hash: Word,
        storage_receipt: Word,
        storage_type: Storage,
        cluster_size: u8,
        owner: Address,
        pin_to_nodes: Option<Vec<Word>>,
        cluster: Option<Cluster>,
    ) -> (r: App)
        ensures
            r.app_id == app_id,
            r.storage_hash == storage_hash,
            r.storage_receipt == storage_receipt,
            r.storage_type == storage_type,
            r.cluster_size == cluster_size,
            r.owner == owner,
            r.pin_to_nodes == pin_to_nodes,
            r.cluster == cluster,
    {
        App {
            app_id,
            storage_hash,
            storage_receipt,
            storage_type,
            cluster_size,
            owner,
            pin_to_nodes,
            cluster,
        }
    }
}

/// A node registered with the contract; it hosts applications.
#[derive(Debug, Clone, PartialEq, Eq)]
pub struct Node {
    pub validator_key: Word,
    pub tendermint_p2p_id: String,
    pub ip_addr: Ipv4Octets,
    pub api_port: u16,
    pub capacity: u16,
    pub owner: Address,
    pub is_private: bool,
    /// `None` when the query did not load them; `Some` of a possibly empty list otherwise.
    pub app_ids: Option<Vec<u64>>,
}

impl Node {
    /// Builds a node, splitting its encoded peer address into peer id and IP.
    pub fn new(
        id: Word,
        address: &Vec<u8>,
        api_port: u16,
        capacity: u16,
        owner: Address,
        is_private: bool,
        app_ids: Option<Vec<u64>>,
    ) -> (r: Result<Node, AddressError>)
        ensures
            match r {
                Ok(n) => {
                    &&& address@.len() == ADDRESS_LEN
                    &&& n.validator_key == id
                    &&& n.tendermint_p2p_id@ == peer_id_of(address@)
                    &&& n.ip_addr@ == ip_of(address@)
                    &&& n.api_port == api_port
                    &&& n.capacity == capacity
                    &&& n.owner == owner
                    &&& n.is_private == is_private
                    &&& n.app_ids == app_ids
                },
                Err(e) => address@.len() != ADDRESS_LEN && e == AddressError::WrongLength,
            },
    {
        let (tendermint_p2p_id, ip_addr) = decode_address(address)?;
        Ok(
            Node {
                validator_key: id,
                tendermint_p2p_id,
                ip_addr,
                api_port,
                capacity,
                owner,
                is_private,
                app_ids,
            },
        )
    }
}

} // verus!

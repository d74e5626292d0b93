//! Turning the raw results of the contract's read calls into nodes and
//! applications, all or nothing, in the order of the contract's id lists.
//!
//! The contract returns ports, capacities, cluster sizes and times as 256-bit
//! words; each is range-checked against the width the entity gives it, and a
//! value too wide is an error, never truncated.

use vstd::prelude::*;
use crate::address::{ip_of, peer_id_of, AddressError, ADDRESS_LEN};
use crate::error::{DecodeError, Error, Field};
use crate::model::{Address, App, Cluster, Node};
use crate::storage::{storage_of_byte, Storage};
use crate::word::{be_value, word_to_bounded, words_to_u64s, Word};

verus! {

/// What the contract's "get node" call returns for one node.
pub struct NodeRecord {
    /// The combined peer address: peer key, then IPv4 octets.
    pub address: Vec<u8>,
    pub api_port: Word,
    pub capacity: Word,
    pub owner: Address,
    pub is_private: bool,
    pub app_ids: Vec<Word>,
}

/// What the contract's "get app" call returns for one application.
pub struct AppRecord {
    pub storage_hash: Word,
    pub storage_receipt: Word,
    /// The backend kind sits in the last byte of this word.
    pub storage_type: Word,
    pub cluster_size: Word,
    pub owner: Address,
    pub pin_to_nodes: Vec<Word>,
    /// Zero while the application is not scheduled.
    pub genesis_time: Word,
    pub node_ids: Vec<Word>,
}

pub open spec fn words_fit_u64(ws: Seq<Word>) -> bool {
    forall|k: int| 0 <= k < ws.len() ==> be_value(#[trigger] ws[k]@) <= u64::MAX
}

/// The first reason, if any, why a node record cannot be decoded.
pub open spec fn node_error(r: NodeRecord) -> Option<DecodeError> {
    if be_value(r.api_port@) > u16::MAX {
        Some(DecodeError::OutOfRange(Field::ApiPort))
    } else if be_value(r.capacity@) > u16::MAX {
        Some(DecodeError::OutOfRange(Field::Capacity))
    } else if !words_fit_u64(r.app_ids@) {
        Some(DecodeError::OutOfRange(Field::AppId))
    } else if r.address@.len() != ADDRESS_LEN {
        Some(DecodeError::Address(AddressError::WrongLength))
    } else {
        None
    }
}

/// `n` is the node with validator key `id` that record `r` describes.
pub open spec fn node_matches(n: Node, id: Word, r: NodeRecord) -> bool {
    &&& n.validator_key == id
    &&& n.tendermint_p2p_id@ == peer_id_of(r.address@)
    &&& n.ip_addr@ == ip_of(r.address@)
    &&& n.api_port == be_value(r.api_port@)
    &&& n.capacity == be_value(r.capacity@)
    &&& n.owner == r.owner
    &&& n.is_private == r.is_private
    &&& match n.app_ids {
        Some(v) => v@.len() == r.app_ids@.len() && forall|k: int|
            0 <= k < v@.len() ==> #[trigger] v@[k] == be_value(r.app_ids@[k]@),
        None => false,
    }
}

/// The first reason, if any, why an application record cannot be decoded.
pub open spec fn app_error(r: AppRecord) -> Option<DecodeError> {
    if be_value(r.cluster_size@) > u8::MAX {
        Some(DecodeError::OutOfRange(Field::ClusterSize))
    } else if be_value(r.genesis_time@) > u32::MAX {
        Some(DecodeError::OutOfRange(Field::GenesisTime))
    } else {
        None
    }
}

/// The cluster that an application record describes: none while its genesis time is zero.
pub open spec fn cluster_of(r: AppRecord) -> Option<Cluster> {
    if be_value(r.genesis_time@) == 0 {
        None
    } else {
        Some(Cluster { genesis_time: be_value(r.genesis_time@) as u32, node_ids: r.node_ids })
    }
}

/// `a` is the application with id `id` that record `r` describes.
pub open spec fn app_matches(a: App, id: u64, r: AppRecord) -> bool {
    &&& a.app_id == id
    &&& a.storage_hash == r.storage_hash
    &&& a.storage_receipt == r.storage_receipt
    &&& a.storage_type == storage_of_byte(r.storage_type@[31])
    &&& a.cluster_size == be_value(r.cluster_size@)
    &&& a.owner == r.owner
    &&& a.pin_to_nodes == Some(r.pin_to_nodes)
    &&& a.cluster == cluster_of(r)
}

/// Every record before index `k` decodes, and the one at `k` does not.
pub open spec fn first_node_failure(rs: Seq<NodeRecord>, k: int) -> bool {
    &&& 0 <= k < rs.len()
    &&& node_error(rs[k]) is Some
    &&& forall|j: int| 0 <= j < k ==> node_error(#[trigger] rs[j]) is None
}

/// Every record before index `k` decodes, and the one at `k` does not.
pub open spec fn first_app_failure(rs: Seq<AppRecord>, k: int) -> bool {
    &&& 0 <= k < rs.len()
    &&& app_error(rs[k]) is Some
    &&& forall|j: int| 0 <= j < k ==> app_error(#[trigger] rs[j]) is None
}

/// Decodes the record of the node with validator key `id`.
pub fn node_from_record(id: Word, r: NodeRecord) -> (res: Result<Node, DecodeError>)
    ensures
        match res {
            Ok(n) => node_error(r) is None && node_matches(n, id, r),
            Err(e) => node_error(r) == Some(e),
        },
{
    let api_port = match word_to_bounded(&r.api_port, u16::MAX as u64) {
        Some(v) => v as u16,
        None => return Err(DecodeError::OutOfRange(Field::ApiPort)),
    };
    let capacity = match word_to_bounded(&r.capacity, u16::MAX as u64) {
        Some(v) => v as u16,
        None => return Err(DecodeError::OutOfRange(Field::Capacity)),
    };
    let app_ids = match words_to_u64s(&r.app_ids) {
        Some(v) => v,
        None => return Err(DecodeError::OutOfRange(Field::AppId)),
    };
    match Node::new(id, &r.address, api_port, capacity, r.owner, r.is_private, Some(app_ids)) {
        Ok(n) => Ok(n),
        Err(e) => Err(DecodeError::Address(e)),
    }
}

/// Decodes the record of the application with id `id`.
pub fn app_from_record(id: u64, r: AppRecord) -> (res: Result<App, DecodeError>)
    ensures
        match res {
            Ok(a) => app_error(r) is None && app_matches(a, id, r),
            Err(e) => app_error(r) == Some(e),
        },
{
    let cluster_size = match word_to_bounded(&r.cluster_size, u8::MAX as u64) {
        Some(v) => v as u8,
        None => return Err(DecodeError::OutOfRange(Field::ClusterSize)),
    };
    let genesis = match word_to_bounded(&r.genesis_time, u32::MAX as u64) {
        Some(v) => v as u32,
        None => return Err(DecodeError::OutOfRange(Field::GenesisTime)),
    };
    let storage_type = Storage::from_word(&r.storage_type);
    let cluster = if genesis != 0 {
        Some(Cluster::new(genesis, r.node_ids))
    } else {
        None
    };
    Ok(
        App::new(
            id,
            r.storage_hash,
            r.storage_receipt,
            storage_type,
            cluster_size,
            r.owner,
            Some(r.pin_to_nodes),
            cluster,
        ),
    )
}

/// An application is scheduled exactly when its recorded genesis time is nonzero.
pub proof fn law_cluster_iff_genesis(a: App, id: u64, r: AppRecord)
    requires
        app_matches(a, id, r),
    ensures
        a.cluster is Some <==> be_value(r.genesis_time@) != 0,
{
}

/// Decodes the contract's list of application ids.
pub fn app_ids_from_words(words: &Vec<Word>) -> (res: Result<Vec<u64>, Error>)
    ensures
        match res {
            Ok(v) => words_fit_u64(words@) && v@.len() == words@.len() && forall|k: int|
                0 <= k < v@.len() ==> #[trigger] v@[k] == be_value(words@[k]@),
            Err(e) => !words_fit_u64(words@) && e == Error::AppIdList,
        },
{
    match words_to_u64s(words) {
        Some(v) => Ok(v),
        None => Err(Error::AppIdList),
    }
}

/// Decodes the records of the nodes with validator keys `ids`, fetched in that order.
/// Fails as a whole on the first record that does not decode, naming its node.
pub fn nodes_from_records(ids: &Vec<Word>, records: Vec<NodeRecord>) -> (res: Result<
    Vec<Node>,
    Error,
>)
    ensures
        ids@.len() != records@.len() ==> res == Err::<Vec<Node>, Error>(Error::RecordCount),
        ids@.len() == records@.len() ==> match res {
            Ok(v) => {
                &&& v@.len() == ids@.len()
                &&& forall|k: int|
                    0 <= k < v@.len() ==> node_error(#[trigger] records@[k]) is None
                        && node_matches(v@[k], ids@[k], records@[k])
            },
            Err(e) => exists|k: int|
                #![trigger records@[k]]
                first_node_failure(records@, k) && e == Error::Node {
                    id: ids@[k],
                    cause: node_error(records@[k])->0,
                },
        },
{
    if ids.len() != records.len() {
        return Err(Error::RecordCount);
    }
    let ghost rs = records@;
    let mut rest = records;
    let mut nodes: Vec<Node> = Vec::new();
    let mut i: usize = 0;
    while i < ids.len()
        invariant
            ids@.len() == rs.len(),
            rs == records@,
            0 <= i <= rs.len(),
            rest@ == rs.subrange(i as int, rs.len() as int),
            nodes@.len() == i,
            forall|k: int|
                0 <= k < i ==> node_error(#[trigger] rs[k]) is None && node_matches(
                    nodes@[k],
                    ids@[k],
                    rs[k],
                ),
        decreases rs.len() - i,
    {
        let r = rest.remove(0);
        assert(r == rs[i as int]);
        match node_from_record(ids[i], r) {
            Ok(n) => nodes.push(n),
            Err(cause) => {
                assert(first_node_failure(rs, i as int));
                return Err(Error::Node { id: ids[i], cause });
            },
        }
        i = i + 1;
    }
    Ok(nodes)
}

/// Decodes the records of the applications with ids `ids`, fetched in that order.
/// Fails as a whole on the first record that does not decode, naming its application.
pub fn apps_from_records(ids: &Vec<u64>, records: Vec<AppRecord>) -> (res: Result<
    Vec<App>,
    Error,
>)
    ensures
        ids@.len() != records@.len() ==> res == Err::<Vec<App>, Error>(Error::RecordCount),
        ids@.len() == records@.len() ==> match res {
            Ok(v) => {
                &&& v@.len() == ids@.len()
                &&& forall|k: int|
                    0 <= k < v@.len() ==> app_error(#[trigger] records@[k]) is None
                        && app_matches(v@[k], ids@[k], records@[k])
            },
            Err(e) => exists|k: int|
                #![trigger records@[k]]
                first_app_failure(records@, k) && e == Error::App {
                    app_id: ids@[k],
                    cause: app_error(records@[k])->0,
                },
        },
{
    if ids.len() != records.len() {
        return Err(Error::RecordCount);
    }
    let ghost rs = records@;
    let mut rest = records;
    let mut apps: Vec<App> = Vec::new();
    let mut i: usize = 0;
    while i < ids.len()
        invariant
            ids@.len() == rs.len(),
            rs == records@,
            0 <= i <= rs.len(),
            rest@ == rs.subrange(i as int, rs.len() as int),
            apps@.len() == i,
            forall|k: int|
                0 <= k < i ==> app_error(#[trigger] rs[k]) is None && app_matches(
                    apps@[k],
                    ids@[k],
                    rs[k],
                ),
        decreases rs.len() - i,
    {
        let r = rest.remove(0);
        assert(r == rs[i as int]);
        match app_from_record(ids[i], r) {
            Ok(a) => apps.push(a),
            Err(cause) => {
                assert(first_app_failure(rs, i as int));
                return Err(Error::App { app_id: ids[i], cause });
            },
        }
        i = i + 1;
    }
    Ok(apps)
}

} // verus!

use fluence::address::AddressError;
use fluence::error::{DecodeError, Error, Field};
use fluence::model::{App, Cluster, Node};
use fluence::registry::{
    app_from_record, app_ids_from_words, apps_from_records, node_from_record, nodes_from_records,
    AppRecord, NodeRecord,
};
use fluence::storage::Storage;

fn word_of(v: u64) -> [u8; 32] {
    let mut w = [0u8; 32];
    w[24..].copy_from_slice(&v.to_be_bytes());
    w
}

fn key(b: u8) -> [u8; 32] {
    [b; 32]
}

fn node_record(port: u64, last_ip: u8) -> NodeRecord {
    let mut address: Vec<u8> = vec![0x11u8; 20];
    address.extend_from_slice(&[10, 0, 0, last_ip]);
    NodeRecord {
        address,
        api_port: word_of(port),
        capacity: word_of(10),
        owner: [0x22; 20],
        is_private: false,
        app_ids: vec![word_of(4), word_of(2)],
    }
}

fn app_record(genesis: u64, node_ids: Vec<[u8; 32]>) -> AppRecord {
    AppRecord {
        storage_hash: key(1),
        storage_receipt: key(2),
        storage_type: word_of(1),
        cluster_size: word_of(2),
        owner: [0x33; 20],
        pin_to_nodes: Vec::new(),
        genesis_time: word_of(genesis),
        node_ids,
    }
}

#[test]
fn get_apps_unscheduled_then_scheduled() {
    let apps = apps_from_records(&vec![5], vec![app_record(0, Vec::new())]).unwrap();
    assert_eq!(apps.len(), 1);
    assert_eq!(apps[0].app_id, 5);
    assert_eq!(apps[0].cluster, None);

    let id1 = key(0xa1);
    let id2 = key(0xa2);
    let apps = apps_from_records(&vec![5], vec![app_record(1000, vec![id1, id2])]).unwrap();
    assert_eq!(apps.len(), 1);
    assert_eq!(apps[0].cluster, Some(Cluster { genesis_time: 1000, node_ids: vec![id1, id2] }));
}

#[test]
fn app_record_fields_are_decoded() {
    let mut r = app_record(7, vec![key(9)]);
    r.pin_to_nodes = vec![key(8)];
    let a = app_from_record(42, r).unwrap();
    let expected = App::new(
        42,
        key(1),
        key(2),
        Storage::Ipfs,
        2,
        [0x33; 20],
        Some(vec![key(8)]),
        Some(Cluster::new(7, vec![key(9)])),
    );
    assert_eq!(a, expected);
}

#[test]
fn cluster_present_exactly_when_genesis_nonzero() {
    for g in [0u64, 1, 1000, u32::MAX as u64] {
        let a = app_from_record(1, app_record(g, vec![key(3)])).unwrap();
        assert_eq!(a.cluster.is_some(), g != 0);
    }
}

#[test]
fn app_narrowing_is_checked() {
    let mut r = app_record(0, Vec::new());
    r.cluster_size = word_of(256);
    assert_eq!(app_from_record(1, r).unwrap_err(), DecodeError::OutOfRange(Field::ClusterSize));
    let r = app_record(u32::MAX as u64 + 1, Vec::new());
    assert_eq!(app_from_record(1, r).unwrap_err(), DecodeError::OutOfRange(Field::GenesisTime));
    let mut r = app_record(0, Vec::new());
    r.cluster_size = word_of(255);
    assert_eq!(app_from_record(1, r).unwrap().cluster_size, 255);
}

#[test]
fn apps_fail_as_a_whole_naming_the_app() {
    let mut bad = app_record(0, Vec::new());
    bad.cluster_size = word_of(300);
    let res = apps_from_records(&vec![1, 2, 3], vec![app_record(0, Vec::new()), bad, app_record(0, Vec::new())]);
    assert_eq!(
        res,
        Err(Error::App { app_id: 2, cause: DecodeError::OutOfRange(Field::ClusterSize) })
    );
}

#[test]
fn record_count_must_match_ids() {
    assert_eq!(apps_from_records(&vec![1, 2], vec![app_record(0, Vec::new())]), Err(Error::RecordCount));
    assert_eq!(nodes_from_records(&vec![key(1)], Vec::new()), Err(Error::RecordCount));
    assert_eq!(apps_from_records(&Vec::new(), Vec::new()), Ok(Vec::new()));
}

#[test]
fn app_id_list_is_decoded_or_rejected() {
    assert_eq!(app_ids_from_words(&vec![word_of(9), word_of(3)]), Ok(vec![9, 3]));
    let mut big = word_of(0);
    big[10] = 1;
    assert_eq!(app_ids_from_words(&vec![word_of(9), big]), Err(Error::AppIdList));
}

#[test]
fn node_record_fields_are_decoded() {
    let n = node_from_record(key(7), node_record(25000, 9)).unwrap();
    let mut address: Vec<u8> = vec![0x11u8; 20];
    address.extend_from_slice(&[10, 0, 0, 9]);
    let expected = Node::new(key(7), &address, 25000, 10, [0x22; 20], false, Some(vec![4, 2])).unwrap();
    assert_eq!(n, expected);
    assert_eq!(n.tendermint_p2p_id, "1111111111111111111111111111111111111111");
    assert_eq!(n.ip_addr, [10, 0, 0, 9]);
    assert_eq!(n.app_ids, Some(vec![4, 2]));
}

#[test]
fn node_without_apps_has_loaded_empty_list() {
    let mut r = node_record(1, 1);
    r.app_ids = Vec::new();
    assert_eq!(node_from_record(key(1), r).unwrap().app_ids, Some(Vec::new()));
}

#[test]
fn node_errors_are_reported() {
    assert_eq!(
        node_from_record(key(1), node_record(65536, 1)).unwrap_err(),
        DecodeError::OutOfRange(Field::ApiPort)
    );
    let mut r = node_record(1, 1);
    r.capacity = word_of(70000);
    assert_eq!(node_from_record(key(1), r).unwrap_err(), DecodeError::OutOfRange(Field::Capacity));
    let mut r = node_record(1, 1);
    let mut big = word_of(0);
    big[0] = 1;
    r.app_ids = vec![big];
    assert_eq!(node_from_record(key(1), r).unwrap_err(), DecodeError::OutOfRange(Field::AppId));
    let mut r = node_record(1, 1);
    r.address.pop();
    assert_eq!(
        node_from_record(key(1), r).unwrap_err(),
        DecodeError::Address(AddressError::WrongLength)
    );
    assert_eq!(
        Node::new(key(1), &vec![0u8; 3], 1, 1, [0; 20], true, None),
        Err(AddressError::WrongLength)
    );
}

#[test]
fn nodes_keep_the_order_of_the_id_list() {
    let ids = vec![key(3), key(1), key(2)];
    let records = vec![node_record(30, 3), node_record(10, 1), node_record(20, 2)];
    let nodes = nodes_from_records(&ids, records).unwrap();
    let keys: Vec<[u8; 32]> = nodes.iter().map(|n| n.validator_key).collect();
    assert_eq!(keys, ids);
    let ports: Vec<u16> = nodes.iter().map(|n| n.api_port).collect();
    assert_eq!(ports, vec![30, 10, 20]);

    let ids = vec![key(2), key(3), key(1)];
    let records = vec![node_record(20, 2), node_record(30, 3), node_record(10, 1)];
    let nodes = nodes_from_records(&ids, records).unwrap();
    let keys: Vec<[u8; 32]> = nodes.iter().map(|n| n.validator_key).collect();
    assert_eq!(keys, ids);
}

#[test]
fn nodes_fail_as_a_whole_naming_the_node() {
    let ids = vec![key(1), key(2), key(3)];
    let records = vec![node_record(10, 1), node_record(70000, 2), node_record(99999, 3)];
    assert_eq!(
        nodes_from_records(&ids, records),
        Err(Error::Node { id: key(2), cause: DecodeError::OutOfRange(Field::ApiPort) })
    );
}

#[test]
fn apps_keep_the_order_of_the_id_list() {
    let apps = apps_from_records(
        &vec![9, 4, 6],
        vec![app_record(0, Vec::new()), app_record(5, Vec::new()), app_record(0, Vec::new())],
    )
    .unwrap();
    let ids: Vec<u64> = apps.iter().map(|a| a.app_id).collect();
    assert_eq!(ids, vec![9, 4, 6]);
    assert!(apps[1].cluster.is_some());
}

use aleo_pool::device::Device;
use aleo_pool::node::NodeRequest;
use aleo_pool::rpc::{PeerAddr, Rpc, RpcError};
use aleo_pool::shares::SharesRequest;

const POOL_ADDRESS: &str = "aleo15te0tcennt8lmrd4e0wjvgwr775cpq5rcsvws0ckgenqx6aaxv8sjlgg9a";

fn peer(port: u16) -> PeerAddr {
    PeerAddr { is_v6: false, ip: 0x7f00_0001, port, flowinfo: 0, scope_id: 0 }
}

fn connect_notice(r: &SharesRequest) -> (String, String, bool) {
    match r {
        SharesRequest::Connect(w, a, b) => (w.clone(), a.clone(), *b),
        _ => panic!("not a connect notice"),
    }
}

const SUBSCRIBE: &str = r#"["aleodevice-0.1.0", "AleoStratum-1.0.0", "name", "token"]"#;

#[test]
fn subscribe_then_submit_scenario() {
    let mut rpc = Rpc::new();
    assert_eq!(rpc.client_count(), 0);
    rpc.on_connect(peer(40000));
    assert!(rpc.client_count() == 1);
    let reply = rpc.on_subscribe(SUBSCRIBE, None, None).ok().unwrap();
    let result: Vec<String> = serde_json::from_str(&reply.response).unwrap();
    assert!("subscribe" == result[0]);
    assert!("NONCE" == result[1]);
    assert!(POOL_ADDRESS == result[2]);
    assert_eq!(rpc.client_count(), 1);
    let c = rpc.client(peer(40000)).unwrap();
    assert_eq!((c.workername.as_str(), c.apikey.as_str()), ("name", "token"));
    assert_eq!(
        connect_notice(reply.connect.as_ref().unwrap()),
        ("name".to_string(), "token".to_string(), true)
    );

    // two parameters are not what `submit` takes: the node is asked nothing
    let params = format!("[\"{}\", 100]", POOL_ADDRESS);
    assert!(rpc.on_submit(&params).is_none());
    let params = r#"["abc", 100]"#;
    assert!(rpc.on_submit(params).is_none());
}

#[test]
fn subscribe_response_text() {
    assert_eq!(
        Rpc::subscribe_response(None, None),
        format!("[\"subscribe\", \"NONCE\", \"{}\"]", POOL_ADDRESS)
    );
    assert_eq!(
        Rpc::subscribe_response(Some("ab12".to_string()), Some("aleo1xyz".to_string())),
        "[\"subscribe\", \"ab12\", \"aleo1xyz\"]"
    );
}

#[test]
fn subscribe_without_known_peer_registers_nothing() {
    let mut rpc = Rpc::new();
    let reply = rpc.on_subscribe(SUBSCRIBE, Some("n1".to_string()), None).ok().unwrap();
    assert!(reply.connect.is_none());
    assert_eq!(reply.response, format!("[\"subscribe\", \"n1\", \"{}\"]", POOL_ADDRESS));
    assert_eq!(rpc.client_count(), 0);
}

#[test]
fn subscribe_with_bad_params_is_refused() {
    let mut rpc = Rpc::new();
    rpc.on_connect(peer(1));
    assert_eq!(rpc.on_subscribe("not json", None, None).err(), Some(RpcError::InvalidParams));
    assert_eq!(
        rpc.on_subscribe(r#"["a", "b", "c"]"#, None, None).err(),
        Some(RpcError::InvalidParams)
    );
    assert_eq!(
        rpc.on_subscribe(r#"["a", "b", "c", 4]"#, None, None).err(),
        Some(RpcError::InvalidParams)
    );
    // the peer stays connected, without credentials
    assert_eq!(rpc.client_count(), 1);
    assert!(rpc.is_connected(peer(1)));
    assert!(rpc.client(peer(1)).is_none());
}

#[test]
fn connect_registers_the_peer_without_credentials() {
    let mut rpc = Rpc::new();
    rpc.on_connect(peer(5));
    assert_eq!(rpc.client_count(), 1);
    assert!(rpc.is_connected(peer(5)));
    assert!(rpc.client(peer(5)).is_none());
    assert_eq!(rpc.status(), "connected client count=1");
    // connecting again keeps one entry
    rpc.on_connect(peer(5));
    assert_eq!(rpc.client_count(), 1);
    // leaving without subscribing tells the shares service nothing
    assert!(rpc.on_disconnect(peer(5)).is_none());
    assert_eq!(rpc.client_count(), 0);
    assert!(!rpc.is_connected(peer(5)));
}

#[test]
fn reconnect_keeps_the_credentials() {
    let mut rpc = Rpc::new();
    rpc.on_connect(peer(6));
    rpc.on_subscribe(SUBSCRIBE, None, None).ok().unwrap();
    rpc.on_connect(peer(6));
    let c = rpc.client(peer(6)).unwrap();
    assert_eq!((c.workername.as_str(), c.apikey.as_str()), ("name", "token"));
}

#[test]
fn device_reads_the_subscribe_answer() {
    let device = Device::new("w".to_string(), "k".to_string());
    let answer = Rpc::subscribe_response(Some("n0nce".to_string()), None);
    assert_eq!(
        device.parse_message_to_miner(&answer),
        Some(vec!["subscribe".to_string(), "n0nce".to_string(), POOL_ADDRESS.to_string()])
    );
}

#[test]
fn resubscribe_replaces_the_worker() {
    let mut rpc = Rpc::new();
    rpc.on_connect(peer(7));
    rpc.on_subscribe(SUBSCRIBE, None, None).ok().unwrap();
    rpc.on_subscribe(r#"["x", "y", "other", "key2"]"#, None, None).ok().unwrap();
    assert_eq!(rpc.client_count(), 1);
    let c = rpc.client(peer(7)).unwrap();
    assert_eq!((c.workername.as_str(), c.apikey.as_str()), ("other", "key2"));
}

#[test]
fn disconnect_drops_the_peer_and_tells_shares() {
    let mut rpc = Rpc::new();
    rpc.on_connect(peer(1));
    rpc.on_subscribe(r#"["a", "p", "w1", "k1"]"#, None, None).ok().unwrap();
    rpc.on_connect(peer(2));
    rpc.on_subscribe(r#"["a", "p", "w2", "k2"]"#, None, None).ok().unwrap();
    assert_eq!(rpc.client_count(), 2);
    assert_eq!(rpc.status(), "connected client count=2");

    let n = rpc.on_disconnect(peer(1)).unwrap();
    assert_eq!(connect_notice(&n), ("w1".to_string(), "k1".to_string(), false));
    assert_eq!(rpc.client_count(), 1);
    assert!(rpc.client(peer(1)).is_none());
    assert!(rpc.client(peer(2)).is_some());

    assert!(rpc.on_disconnect(peer(1)).is_none());
    assert!(rpc.on_disconnect(peer(3)).is_none());
    assert_eq!(rpc.client_count(), 1);
}

#[test]
fn subscribe_then_disconnect_restores_registry() {
    let mut rpc = Rpc::new();
    rpc.on_connect(peer(10));
    rpc.on_subscribe(r#"["a", "p", "w", "k"]"#, None, None).ok().unwrap();
    rpc.on_connect(peer(11));
    rpc.on_subscribe(SUBSCRIBE, None, None).ok().unwrap();
    rpc.on_disconnect(peer(11)).unwrap();
    assert_eq!(rpc.client_count(), 1);
    let c = rpc.client(peer(10)).unwrap();
    assert_eq!((c.workername.as_str(), c.apikey.as_str()), ("w", "k"));
    assert!(rpc.client(peer(11)).is_none());
}

#[test]
fn v4_and_v6_peers_are_distinct() {
    let mut rpc = Rpc::new();
    let v4 = peer(9);
    let v6 = PeerAddr { is_v6: true, ..v4 };
    rpc.on_connect(v4);
    rpc.on_subscribe(SUBSCRIBE, None, None).ok().unwrap();
    rpc.on_connect(v6);
    rpc.on_subscribe(SUBSCRIBE, None, None).ok().unwrap();
    assert_eq!(rpc.client_count(), 2);
}

#[test]
fn submit_asks_node_for_a_block() {
    let rpc = Rpc::new();
    match rpc.on_submit(r#"["name", "token", 100]"#) {
        Some(NodeRequest::NewBlock(w, a, c)) => {
            assert_eq!((w.as_str(), a.as_str(), c), ("name", "token", 100));
        },
        None => panic!("submit refused"),
    }
    assert!(rpc.on_submit(r#"["name", "token", -1]"#).is_none());
    assert!(rpc.on_submit(r#"["name", "token", "100"]"#).is_none());
    assert!(rpc.on_submit("null").is_none());
}

#[test]
fn status_and_listen_addr() {
    let rpc = Rpc::new();
    assert_eq!(rpc.status(), "connected client count=0");
    assert_eq!(Rpc::listen_addr(None), "0.0.0.0:52066");
    assert_eq!(Rpc::listen_addr(Some("9000".to_string())), "0.0.0.0:9000");
}

#[test]
fn client_connect_notice() {
    let rpc = Rpc::new();
    let n = rpc.on_client_connet("w".to_string(), "k".to_string(), true);
    assert_eq!(connect_notice(&n), ("w".to_string(), "k".to_string(), true));
}

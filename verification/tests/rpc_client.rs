use spaces_node::chain::ChainHash;
use spaces_node::rpc::{
    broadcast_tx_result, median_time_result, mempool_poll_result, send_with_retry, BitcoinRpc,
    BitcoinRpcAuth, JsonRpcError, BitcoinRpcError, TransportError,
};

fn rpc() -> BitcoinRpc {
    BitcoinRpc::new("http://127.0.0.1:18443", BitcoinRpcAuth::NoAuth)
}

fn warming_up() -> BitcoinRpcError {
    BitcoinRpcError::Rpc(JsonRpcError { code: -28, message: "Loading block index...".to_string() })
}

fn fatal_rpc() -> BitcoinRpcError {
    BitcoinRpcError::Rpc(JsonRpcError { code: -8, message: "Invalid parameter".to_string() })
}

#[test]
fn auth_token_user_pass() {
    let c = BitcoinRpc::new(
        "http://x",
        BitcoinRpcAuth::UserPass("user".to_string(), "pass".to_string()),
    );
    assert_eq!(c.auth_token.as_deref(), Some("dXNlcjpwYXNz"));
    let c2 = BitcoinRpc::new("http://x", BitcoinRpcAuth::Cookie("tok".to_string()));
    assert_eq!(c2.auth_token.as_deref(), Some("tok"));
    assert!(rpc().auth_token.is_none());
}

#[test]
fn request_envelopes() {
    let mut c = rpc();
    let r0 = c.get_block_count();
    assert_eq!(r0.id, 0);
    assert_eq!(
        String::from_utf8(r0.body).unwrap(),
        r#"{"jsonrpc":"2.0","id":"0","method":"getblockcount","params":[]}"#
    );
    let r1 = c.get_block_hash(101);
    assert_eq!(r1.id, 1);
    assert_eq!(
        String::from_utf8(r1.body).unwrap(),
        r#"{"jsonrpc":"2.0","id":"1","method":"getblockhash","params":[101]}"#
    );
    let r2 = c.get_blockchain_info();
    assert_eq!(
        String::from_utf8(r2.body).unwrap(),
        r#"{"jsonrpc":"2.0","id":"2","method":"getblockchaininfo","params":[]}"#
    );
    let r3 = c.estimate_smart_fee();
    assert_eq!(
        String::from_utf8(r3.body).unwrap(),
        r#"{"jsonrpc":"2.0","id":"3","method":"estimatesmartfee","params":[6,"unset"]}"#
    );
    let r4 = c.get_mempool_entry("ab12");
    assert_eq!(
        String::from_utf8(r4.body).unwrap(),
        r#"{"jsonrpc":"2.0","id":"4","method":"getmempoolentry","params":["ab12"]}"#
    );
}

#[test]
fn get_block_spells_hash_in_display_order() {
    let mut c = rpc();
    let mut bytes = vec![0u8; 32];
    bytes[0] = 0xab;
    bytes[31] = 0x01;
    let hash = ChainHash::new(bytes);
    let r = c.get_block(&hash);
    let body = String::from_utf8(r.body).unwrap();
    // Display order reverses the internal bytes: 0x01 first, 0xab last.
    assert!(body.starts_with(r#"{"jsonrpc":"2.0","id":"0","method":"getblock","params":["01"#));
    assert!(body.ends_with(r#"ab",0]}"#));
}

#[test]
fn send_raw_transaction_params() {
    let mut c = rpc();
    let r = c.send_raw_transaction(&vec![0xde, 0xad]);
    assert_eq!(
        String::from_utf8(r.body).unwrap(),
        r#"{"jsonrpc":"2.0","id":"0","method":"sendrawtransaction","params":["dead",0,21000000]}"#
    );
}

#[test]
fn temporary_classification() {
    assert!(warming_up().is_temporary());
    assert!(BitcoinRpcError::Rpc(JsonRpcError { code: -10, message: String::new() })
        .is_temporary());
    assert!(BitcoinRpcError::Rpc(JsonRpcError { code: -9, message: String::new() })
        .is_temporary());
    assert!(!fatal_rpc().is_temporary());
    assert!(BitcoinRpcError::Transport(TransportError {
        timeout: true,
        connect: false,
        status: None
    })
    .is_temporary());
    for s in [408u16, 429, 500, 502, 503, 504] {
        assert!(BitcoinRpcError::Transport(TransportError {
            timeout: false,
            connect: false,
            status: Some(s)
        })
        .is_temporary());
    }
    assert!(!BitcoinRpcError::Transport(TransportError {
        timeout: false,
        connect: false,
        status: Some(404)
    })
    .is_temporary());
    assert!(!BitcoinRpcError::Other("parse".to_string()).is_temporary());
}

#[test]
fn warmup_retry_succeeds_after_two_attempts() {
    // First two replies are "warming up" (-28), the third succeeds: one
    // answer after two retries and 20 + 40 = 60 ms of sleep.
    let mut outcomes: Vec<Result<u32, BitcoinRpcError>> = vec![
        Err(warming_up()),
        Err(warming_up()),
        Ok(100),
        Ok(0),
        Ok(0),
    ];
    let out = send_with_retry(&mut outcomes);
    assert_eq!(out.result.unwrap(), 100);
    assert_eq!(out.retries, 2);
    assert_eq!(out.slept_ms, 60);
}

#[test]
fn retry_exhausts_and_surfaces_last_error() {
    let mut outcomes: Vec<Result<u32, BitcoinRpcError>> = (0..5)
        .map(|i| {
            Err(BitcoinRpcError::Rpc(JsonRpcError { code: -28, message: format!("attempt {}", i) }))
        })
        .collect();
    let out = send_with_retry(&mut outcomes);
    match out.result {
        Err(BitcoinRpcError::Rpc(j)) => assert_eq!(j.message, "attempt 4"),
        other => panic!("unexpected: {:?}", other),
    }
    assert_eq!(out.retries, 4);
    assert_eq!(out.slept_ms, 20 + 40 + 80 + 160);
}

#[test]
fn retry_aborts_on_fatal_error() {
    let mut outcomes: Vec<Result<u32, BitcoinRpcError>> = vec![
        Err(warming_up()),
        Err(fatal_rpc()),
        Ok(1),
        Ok(1),
        Ok(1),
    ];
    let out = send_with_retry(&mut outcomes);
    match out.result {
        Err(BitcoinRpcError::Rpc(j)) => assert_eq!(j.code, -8),
        other => panic!("unexpected: {:?}", other),
    }
    assert_eq!(out.retries, 1);
    assert_eq!(out.slept_ms, 20);
}

#[test]
fn mempool_poll_finds_first_time() {
    let mut polls: Vec<Result<Option<u64>, BitcoinRpcError>> = vec![
        Ok(None),
        Err(fatal_rpc()),
        Ok(Some(777)),
        Ok(Some(888)),
        Ok(None),
        Ok(None),
        Ok(None),
        Ok(None),
        Ok(None),
        Ok(None),
    ];
    assert_eq!(mempool_poll_result(&mut polls).unwrap(), 777);
}

#[test]
fn mempool_poll_surfaces_last_error() {
    let mut polls: Vec<Result<Option<u64>, BitcoinRpcError>> = (0..10)
        .map(|i| {
            if i == 7 {
                Err(fatal_rpc())
            } else {
                Ok(None)
            }
        })
        .collect();
    match mempool_poll_result(&mut polls) {
        Err(BitcoinRpcError::Rpc(j)) => assert_eq!(j.code, -8),
        other => panic!("unexpected: {:?}", other),
    }
}

#[test]
fn median_time_requires_the_field() {
    assert_eq!(median_time_result(Some(17_000)).unwrap(), 17_000);
    match median_time_result(None) {
        Err(BitcoinRpcError::Other(m)) => assert_eq!(m, "Could not fetch median time"),
        other => panic!("unexpected: {:?}", other),
    }
}

#[test]
fn broadcast_result_combines_submit_and_polls() {
    let mut polls: Vec<Result<Option<u64>, BitcoinRpcError>> =
        (0..10).map(|i| if i == 3 { Ok(Some(555)) } else { Ok(None) }).collect();
    let r = broadcast_tx_result(Ok("feed".to_string()), &mut polls).unwrap();
    assert_eq!(r, ("feed".to_string(), 555));

    let mut unused: Vec<Result<Option<u64>, BitcoinRpcError>> = vec![];
    match broadcast_tx_result(Err(fatal_rpc()), &mut unused) {
        Err(BitcoinRpcError::Rpc(j)) => assert_eq!(j.code, -8),
        other => panic!("unexpected: {:?}", other),
    }

    let mut failing: Vec<Result<Option<u64>, BitcoinRpcError>> =
        (0..10).map(|i| if i == 9 { Err(fatal_rpc()) } else { Ok(None) }).collect();
    match broadcast_tx_result(Ok("feed".to_string()), &mut failing) {
        Err(BitcoinRpcError::Rpc(j)) => assert_eq!(j.code, -8),
        other => panic!("unexpected: {:?}", other),
    }
}

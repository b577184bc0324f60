use spaces_node::fees::{btc_per_kvb_to_sat_per_vb_ceil, fee_rate_from_message};
use spaces_node::resolver::{parse_space_address, resolve, ChainNet, ResolveError};
use spaces_node::state::{
    space_hash, FullSpaceOut, LiveSnapshot, OutPoint, SName, Space, SpaceOut,
};

const REPLACEMENT_MESSAGE: &str = "insufficient fee, rejecting replacement \
96bb0d5fa00a35e888ff8afb5b41903955b8f34b5b2de01d874ae579a4d1eba0; \
new feerate 0.01000000 BTC/kvB <= old feerate 0.02000000 BTC/kvB";

#[test]
fn replacement_message_yields_old_rate() {
    // 0.02 BTC/kvB is 2000 sat/vB.
    assert_eq!(fee_rate_from_message(REPLACEMENT_MESSAGE), Some(2000));
}

#[test]
fn message_without_phrase_yields_nothing() {
    assert_eq!(
        fee_rate_from_message("new feerate 0.01000000 BTC/kvB <= old feerate 0.02 BTC/kvB"),
        None
    );
    assert_eq!(fee_rate_from_message(""), None);
}

#[test]
fn message_without_semicolon_or_token_yields_nothing() {
    assert_eq!(
        fee_rate_from_message("insufficient fee, rejecting replacement abc"),
        None
    );
    assert_eq!(
        fee_rate_from_message("insufficient fee, rejecting replacement abc; no separator here"),
        None
    );
    assert_eq!(
        fee_rate_from_message(
            "insufficient fee, rejecting replacement abc; new feerate 1 BTC/kvB <= bad",
        ),
        None
    );
}

#[test]
fn fee_value_is_truncated() {
    let msg = "insufficient fee, rejecting replacement x; \
new feerate 0.01 BTC/kvB <= old feerate 0.0000199 BTC/kvB";
    // 0.0000199 BTC/kvB is 1.99 sat/vB: truncated to 1.
    assert_eq!(fee_rate_from_message(msg), Some(1));
}

#[test]
fn estimate_conversion_rounds_up() {
    assert_eq!(btc_per_kvb_to_sat_per_vb_ceil("0.00001"), Some(1));
    assert_eq!(btc_per_kvb_to_sat_per_vb_ceil("0.000011"), Some(2));
    assert_eq!(btc_per_kvb_to_sat_per_vb_ceil("0.02000000"), Some(2000));
    assert_eq!(btc_per_kvb_to_sat_per_vb_ceil("nonsense"), None);
}

// BIP-173 example address: P2WPKH over program 751e…3bd6.
const MAINNET_ADDR: &str = "bc1qw508d6qejxtdg4y5r3zarvary0c5xw7kv8f3t4";

fn expected_p2wpkh_script() -> Vec<u8> {
    let mut s = vec![0x00, 0x14];
    s.extend_from_slice(
        &spaces_node::encoding::hex_to_bytes(
            b"751e76e8199196d454941c45d1b3a323f1433bd6".to_vec(),
        )
        .unwrap(),
    );
    s
}

fn snapshot_with(name: &str, script: Vec<u8>, owned: bool, claim: Option<u32>) -> LiveSnapshot {
    let parsed = SName::from_str(name).unwrap();
    let hash = space_hash(&parsed);
    LiveSnapshot {
        spaces: vec![(
            hash,
            FullSpaceOut {
                outpoint: OutPoint { txid_w0: 1, txid_w1: 0, txid_w2: 0, txid_w3: 0, vout: 0 },
                spaceout: SpaceOut {
                    value: 1000,
                    script_pubkey: script,
                    space: Some(Space { owned, claim_height: claim }),
                },
            },
        )],
        spaceouts: vec![],
    }
}

#[test]
fn raw_address_resolves_to_its_script() {
    let store = LiveSnapshot { spaces: vec![], spaceouts: vec![] };
    let r = resolve(ChainNet::Mainnet, &store, MAINNET_ADDR, false).unwrap();
    assert_eq!(r, Some(expected_p2wpkh_script()));
}

#[test]
fn raw_address_is_refused_where_space_address_required() {
    let store = LiveSnapshot { spaces: vec![], spaceouts: vec![] };
    assert_eq!(
        resolve(ChainNet::Mainnet, &store, MAINNET_ADDR, true),
        Err(ResolveError::MustBeSpaceAddress)
    );
}

#[test]
fn wrong_network_is_an_error() {
    let store = LiveSnapshot { spaces: vec![], spaceouts: vec![] };
    assert_eq!(
        resolve(ChainNet::Regtest, &store, MAINNET_ADDR, false),
        Err(ResolveError::AddressNotValidForNetwork)
    );
}

#[test]
fn space_address_carries_its_script() {
    assert_eq!(parse_space_address("space:0014aabb"), Some(vec![0x00, 0x14, 0xaa, 0xbb]));
    assert_eq!(parse_space_address("space:xyz"), None);
    assert_eq!(parse_space_address("space:001"), None);
    let store = LiveSnapshot { spaces: vec![], spaceouts: vec![] };
    let r = resolve(ChainNet::Mainnet, &store, "space:0014aabb", true).unwrap();
    assert_eq!(r, Some(vec![0x00, 0x14, 0xaa, 0xbb]));
}

#[test]
fn known_name_resolves_to_snapshot_script() {
    let script = vec![0x51, 0x20, 0x07];
    let store = snapshot_with("@example", script.clone(), true, None);
    let r = resolve(ChainNet::Regtest, &store, "@example", false).unwrap();
    assert_eq!(r, Some(script));
}

#[test]
fn unknown_name_resolves_to_none() {
    let store = snapshot_with("@example", vec![0x51], true, None);
    assert_eq!(resolve(ChainNet::Regtest, &store, "@missing", false), Ok(None));
}

#[test]
fn malformed_recipient_is_an_error() {
    let store = LiveSnapshot { spaces: vec![], spaceouts: vec![] };
    assert_eq!(
        resolve(ChainNet::Regtest, &store, "not an address!", false),
        Err(ResolveError::NotAValidNameOrAddress)
    );
    assert_eq!(
        resolve(ChainNet::Regtest, &store, "@UPPER", false),
        Err(ResolveError::NotAValidNameOrAddress)
    );
}

#[test]
fn name_grammar() {
    assert!(SName::from_str("@a").is_some());
    assert!(SName::from_str("@abc-123").is_some());
    assert!(SName::from_str("@").is_none());
    assert!(SName::from_str("abc").is_none());
    assert!(SName::from_str(&format!("@{}", "a".repeat(63))).is_some());
    assert!(SName::from_str(&format!("@{}", "a".repeat(64))).is_none());
}

use paradex_onboarding::error::FlowError;
use paradex_onboarding::felt::{
    decode_short_string, encode_short_string, felt_from_u128, EncodeError, Felt252,
};
use paradex_onboarding::flow::{
    auth_outcome, build_auth_typed_data, build_onboarding_typed_data, onboarding_outcome,
    prepare_auth, prepare_onboarding, ParadexConfig,
};
use paradex_onboarding::hex::string_to_felt_hex;
use paradex_onboarding::typed_data::{
    domain_hash, encode_type, encode_value, manual_domain_hash, message_hash, FieldValue,
    TypedMessage,
};
use starknet_crypto::Felt;

const TEST_KEY: &str = "0x2dccce1da22003777062ee0870e9881b460a8b7eca276870f57c601f182136c";

fn to_felt(f: &Felt252) -> Felt {
    Felt::from_bytes_be_slice(&f.to_be_bytes())
}

fn reference_typed_data(chain_id: &str, message_types: &str, primary: &str, message: &str) -> starknet::core::types::TypedData {
    let text = format!(
        r#"{{"types":{{"StarkNetDomain":[{{"name":"name","type":"felt"}},{{"name":"version","type":"felt"}},{{"name":"chainId","type":"felt"}}],{}}},"primaryType":"{}","domain":{{"name":"{}","chainId":"{}","version":"1"}},"message":{}}}"#,
        message_types,
        primary,
        string_to_felt_hex("Paradex").unwrap(),
        string_to_felt_hex(chain_id).unwrap(),
        message
    );
    serde_json::from_str(&text).unwrap()
}

#[test]
fn felt_hex_of_names() {
    assert_eq!(string_to_felt_hex("Paradex").unwrap(), "0x50617261646578");
    assert_eq!(string_to_felt_hex("SN_MAIN").unwrap(), "0x534e5f4d41494e");
    assert_eq!(string_to_felt_hex("").unwrap(), "0x0");
    let longest = "abcdefghijklmnopqrstuvwxyz01234";
    assert_eq!(string_to_felt_hex(longest).unwrap().len(), 2 + 2 * 31);
    assert!(matches!(
        string_to_felt_hex("abcdefghijklmnopqrstuvwxyz012345"),
        Err(EncodeError::EncodingOverflow)
    ));
}

#[test]
fn short_string_round_trip() {
    for s in ["a", "SN_GOERLI", "Onboarding", "/v1/auth", "abcdefghijklmnopqrstuvwxyz01234"] {
        let f = encode_short_string(s).unwrap();
        assert_eq!(decode_short_string(&f), s.as_bytes().to_vec());
        assert_eq!(to_felt(&f), starknet::core::utils::cairo_short_string_to_felt(s).unwrap());
    }
}

#[test]
fn empty_string_encodes_to_zero() {
    let f = encode_short_string("").unwrap();
    assert_eq!(f.to_be_bytes(), vec![0u8; 32]);
    assert!(decode_short_string(&f).is_empty());
}

#[test]
fn long_string_overflows() {
    let s = "abcdefghijklmnopqrstuvwxyz012345";
    assert_eq!(s.len(), 32);
    assert!(matches!(encode_short_string(s), Err(EncodeError::EncodingOverflow)));
}

#[test]
fn integer_values() {
    let f = felt_from_u128(1700000000);
    assert_eq!(to_felt(&f), Felt::from(1700000000u64));
    assert!(matches!(encode_value(&FieldValue::Integer(-1)), Err(EncodeError::InvalidFieldValue)));
    let g = encode_value(&FieldValue::Integer(42)).unwrap();
    assert_eq!(to_felt(&g), Felt::from(42u64));
}

#[test]
fn type_text_of_request() {
    let fields: Vec<String> = ["method", "path", "body", "timestamp", "expiration"]
        .iter()
        .map(|s| s.to_string())
        .collect();
    assert_eq!(
        encode_type("Request", &fields),
        "Request(method:felt,path:felt,body:felt,timestamp:felt,expiration:felt)"
    );
}

#[test]
fn domain_hash_paths_agree_on_both_chains() {
    for config in [ParadexConfig::testnet(), ParadexConfig::production()] {
        let td = build_onboarding_typed_data(&config.starknet_chain_id).unwrap();
        let schema = domain_hash(&td.domain);
        let manual = manual_domain_hash(&td.domain);
        assert!(schema.equals(&manual));
        let expected = starknet::core::crypto::compute_hash_on_elements(&[
            starknet::core::utils::starknet_keccak(b"StarkNetDomain(name:felt,version:felt,chainId:felt)"),
            starknet::core::utils::cairo_short_string_to_felt("Paradex").unwrap(),
            Felt::ONE,
            starknet::core::utils::cairo_short_string_to_felt(&config.starknet_chain_id).unwrap(),
        ]);
        assert_eq!(to_felt(&schema), expected);
    }
}

#[test]
fn onboarding_hash_matches_starknet_typed_data() {
    let account = felt_from_u128(1);
    let td = build_onboarding_typed_data("SN_GOERLI").unwrap();
    let ours = message_hash(&td.domain, &td.message, &account).unwrap();
    let reference = reference_typed_data(
        "SN_GOERLI",
        r#""Constant":[{"name":"action","type":"felt"}]"#,
        "Constant",
        r#"{"action":"Onboarding"}"#,
    );
    assert_eq!(to_felt(&ours), reference.message_hash(Felt::ONE).unwrap());
}

#[test]
fn auth_hash_matches_starknet_typed_data() {
    let account = felt_from_u128(1);
    let td = build_auth_typed_data("SN_MAIN", 1700000000, 1700086400).unwrap();
    let ours = message_hash(&td.domain, &td.message, &account).unwrap();
    let reference = reference_typed_data(
        "SN_MAIN",
        r#""Request":[{"name":"method","type":"felt"},{"name":"path","type":"felt"},{"name":"body","type":"felt"},{"name":"timestamp","type":"felt"},{"name":"expiration","type":"felt"}]"#,
        "Request",
        r#"{"method":"POST","path":"/v1/auth","body":"","timestamp":1700000000,"expiration":1700086400}"#,
    );
    assert_eq!(to_felt(&ours), reference.message_hash(Felt::ONE).unwrap());
}

#[test]
fn message_hash_is_deterministic() {
    let account = felt_from_u128(1);
    let a = build_onboarding_typed_data("SN_GOERLI").unwrap();
    let b = build_onboarding_typed_data("SN_GOERLI").unwrap();
    let h1 = message_hash(&a.domain, &a.message, &account).unwrap();
    let h2 = message_hash(&b.domain, &b.message, &account).unwrap();
    assert!(h1.equals(&h2));
}

#[test]
fn changing_a_field_changes_the_hash() {
    let account = felt_from_u128(1);
    let a = build_auth_typed_data("SN_GOERLI", 1700000000, 1700086400).unwrap();
    let b = build_auth_typed_data("SN_GOERLI", 1700000001, 1700086400).unwrap();
    let sa = a.message.struct_hash().unwrap();
    let sb = b.message.struct_hash().unwrap();
    assert!(!sa.equals(&sb));
    let ha = message_hash(&a.domain, &a.message, &account).unwrap();
    let hb = message_hash(&b.domain, &b.message, &account).unwrap();
    assert!(!ha.equals(&hb));
}

#[test]
fn auth_expiration_changes_the_hash() {
    let account = felt_from_u128(1);
    let a = build_auth_typed_data("SN_GOERLI", 1700000000, 1700086400).unwrap();
    let b = build_auth_typed_data("SN_GOERLI", 1700000000, 1700086401).unwrap();
    let ha = message_hash(&a.domain, &a.message, &account).unwrap();
    let hb = message_hash(&b.domain, &b.message, &account).unwrap();
    assert!(!ha.equals(&hb));
}

#[test]
fn onboarding_signature_is_deterministic_and_verifies() {
    let config = ParadexConfig::testnet();
    let first = prepare_onboarding("0x1", TEST_KEY, "0xabc", &config).unwrap();
    let second = prepare_onboarding("0x1", TEST_KEY, "0xabc", &config).unwrap();
    assert!(first.message_hash.equals(&second.message_hash));
    assert!(first.signature.r.equals(&second.signature.r));
    assert!(first.signature.s.equals(&second.signature.s));
    assert_eq!(first.starknet_account, "0x1");
    assert_eq!(first.ethereum_account, "0xabc");
    let secret = Felt::from_hex(TEST_KEY).unwrap();
    assert_eq!(to_felt(&first.public_key), starknet_crypto::get_public_key(&secret));
    let ok = starknet_crypto::verify(
        &to_felt(&first.public_key),
        &to_felt(&first.message_hash),
        &to_felt(&first.signature.r),
        &to_felt(&first.signature.s),
    )
    .unwrap();
    assert!(ok);
}

#[test]
fn auth_request_carries_one_day_window() {
    let config = ParadexConfig::production();
    let req = prepare_auth("0x1", TEST_KEY, &config, 1700000000).unwrap();
    assert_eq!(req.timestamp, 1700000000);
    assert_eq!(req.expiration, 1700086400);
    let td = build_auth_typed_data("SN_MAIN", 1700000000, 1700086400).unwrap();
    let h = message_hash(&td.domain, &td.message, &felt_from_u128(1)).unwrap();
    assert!(req.message_hash.equals(&h));
}

#[test]
fn bad_keys_are_refused() {
    let config = ParadexConfig::testnet();
    assert!(matches!(prepare_onboarding("0x1", "not hex", "0xabc", &config), Err(FlowError::KeyParse)));
    assert!(matches!(prepare_onboarding("0x1", "0x0", "0xabc", &config), Err(FlowError::KeyParse)));
    assert!(matches!(prepare_onboarding("zz", TEST_KEY, "0xabc", &config), Err(FlowError::KeyParse)));
    assert!(matches!(prepare_auth("0x1", "", &config, 1), Err(FlowError::KeyParse)));
}

#[test]
fn long_chain_id_overflows() {
    let config = ParadexConfig { starknet_chain_id: "A_CHAIN_IDENTIFIER_LONGER_THAN_31".to_string() };
    assert!(matches!(
        prepare_onboarding("0x1", TEST_KEY, "0xabc", &config),
        Err(FlowError::EncodingOverflow)
    ));
}

#[test]
fn expiration_past_u64_is_invalid() {
    let config = ParadexConfig::testnet();
    assert!(matches!(prepare_auth("0x1", TEST_KEY, &config, u64::MAX - 10), Err(FlowError::InvalidFieldValue)));
}

#[test]
fn rejected_onboarding_carries_body() {
    match onboarding_outcome(400, "account already onboarded".to_string()) {
        Err(FlowError::Rejected(status, body)) => {
            assert_eq!(status, 400);
            assert_eq!(body, "account already onboarded");
        }
        other => panic!("unexpected {:?}", other),
    }
    assert!(onboarding_outcome(200, String::new()).is_ok());
}

#[test]
fn auth_outcomes() {
    let config = ParadexConfig::testnet();
    let req = prepare_auth("0x1", TEST_KEY, &config, 1700000000).unwrap();
    let token = auth_outcome(&req, 200, "{}".to_string(), Some("jwt".to_string())).unwrap();
    assert_eq!(token.jwt, "jwt");
    assert_eq!(token.issued_at, 1700000000);
    assert_eq!(token.expires_at, 1700086400);
    assert!(matches!(auth_outcome(&req, 200, "oops".to_string(), None), Err(FlowError::Transport(_))));
    assert!(matches!(
        auth_outcome(&req, 401, "denied".to_string(), None),
        Err(FlowError::Rejected(401, _))
    ));
}

#[test]
fn config_chains() {
    assert_eq!(ParadexConfig::testnet().starknet_chain_id, "SN_GOERLI");
    assert_eq!(ParadexConfig::production().starknet_chain_id, "SN_MAIN");
}

#[test]
fn message_fields_by_hand() {
    let m = TypedMessage {
        primary_type: "Constant".to_string(),
        fields: vec!["action".to_string()],
        values: vec![FieldValue::Text("Onboarding".to_string())],
    };
    let td = build_onboarding_typed_data("SN_GOERLI").unwrap();
    assert!(m.struct_hash().unwrap().equals(&td.message.struct_hash().unwrap()));
}

#[test]
fn request_texts() {
    let config = ParadexConfig::testnet();
    let req = prepare_onboarding("0x1", TEST_KEY, "0xabc", &config).unwrap();
    let expected_header = format!(
        r#"["{}","{}"]"#,
        to_felt(&req.signature.r),
        to_felt(&req.signature.s)
    );
    assert_eq!(req.signature_header(), expected_header);
    let expected_body = format!(r#"{{"public_key":"0x{:x}"}}"#, to_felt(&req.public_key));
    assert_eq!(req.body(), expected_body);
    assert!(req.body().starts_with("{\"public_key\":\"0x"));
    let auth = prepare_auth("0x1", TEST_KEY, &config, 1700000000).unwrap();
    let header = auth.signature_header();
    assert!(header.starts_with("[\"") && header.ends_with("\"]"));
    assert_eq!(
        header,
        format!(r#"["{}","{}"]"#, to_felt(&auth.signature.r), to_felt(&auth.signature.s))
    );
}

#[test]
fn small_values_in_texts() {
    let sig = paradex_onboarding::crypto::Signature { r: felt_from_u128(0), s: felt_from_u128(1234567) };
    assert_eq!(paradex_onboarding::text::signature_header(&sig), r#"["0","1234567"]"#);
    assert_eq!(paradex_onboarding::text::onboarding_body(&felt_from_u128(0x1abc)), r#"{"public_key":"0x1abc"}"#);
    assert_eq!(paradex_onboarding::text::onboarding_body(&felt_from_u128(0)), r#"{"public_key":"0x0"}"#);
}

#[test]
fn builders_give_the_fixed_schemas() {
    let on = build_onboarding_typed_data("SN_GOERLI").unwrap();
    assert_eq!(on.message.primary_type, "Constant");
    assert_eq!(on.message.fields, vec!["action".to_string()]);
    assert!(matches!(&on.message.values[..], [FieldValue::Text(t)] if t == "Onboarding"));
    let auth = build_auth_typed_data("SN_MAIN", 1700000000, 1700086400).unwrap();
    assert_eq!(auth.message.primary_type, "Request");
    assert_eq!(auth.message.fields, vec!["method", "path", "body", "timestamp", "expiration"]);
    assert!(matches!(
        &auth.message.values[..],
        [FieldValue::Text(m), FieldValue::Text(p), FieldValue::Text(b), FieldValue::Integer(1700000000), FieldValue::Integer(1700086400)]
            if m == "POST" && p == "/v1/auth" && b.is_empty()
    ));
}

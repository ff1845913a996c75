use defpool_proxy::numeric::{format_u64_dec, parse_hex_u64};
use defpool_proxy::sv2::{
    get_message_type, is_new_job, is_share_submission, message_kind_name, Sv2MessageKind,
};
use defpool_proxy::target::{default_protocol, Target};
use defpool_proxy::transport::Protocol;
use stratum_core::common_messages_sv2::SetupConnectionSuccess;
use stratum_core::parsers_sv2::{AnyMessage, CommonMessages};

#[test]
fn test_default_protocol() {
    assert_eq!(default_protocol(), "sv2");
}

#[test]
fn test_target_family() {
    let v1 = Target {
        address: "pool:3333".to_string(),
        pubkey: None,
        protocol: "sv1".to_string(),
    };
    assert_eq!(v1.family(), Protocol::V1);

    let v2 = Target {
        address: "pool:3334".to_string(),
        pubkey: Some("key".to_string()),
        protocol: "sv2".to_string(),
    };
    assert_eq!(v2.family(), Protocol::V2);
}

#[test]
fn test_sv2_message_classification() {
    let msg = AnyMessage::Common(CommonMessages::SetupConnectionSuccess(
        SetupConnectionSuccess { used_version: 2, flags: 0 },
    ));
    assert_eq!(get_message_type(&msg), "SetupConnectionSuccess");
    assert!(!is_share_submission(&msg));
    assert!(!is_new_job(&msg));
    assert_eq!(
        message_kind_name(Sv2MessageKind::SubmitSharesStandard),
        "SubmitSharesStandard"
    );
    assert_eq!(message_kind_name(Sv2MessageKind::NewMiningJob), "NewMiningJob");
}

#[test]
fn test_hex_parsing() {
    assert_eq!(parse_hex_u64("ff"), Some(255));
    assert_eq!(parse_hex_u64("00010000"), Some(0x10000));
    assert_eq!(parse_hex_u64("FFFFFFFFFFFFFFFF"), Some(u64::MAX));
    assert_eq!(parse_hex_u64(""), None);
    assert_eq!(parse_hex_u64("xyz"), None);
    assert_eq!(parse_hex_u64("10000000000000000"), None);
}

#[test]
fn test_decimal_formatting() {
    let digits: String = format_u64_dec(90210).into_iter().collect();
    assert_eq!(digits, "90210");
    let zero: String = format_u64_dec(0).into_iter().collect();
    assert_eq!(zero, "0");
}

use asset_balance::errors::{ZkErrorCode, ZktlsError};

fn all_codes() -> Vec<ZkErrorCode> {
    vec![
        ZkErrorCode::ParseConfigData,
        ZkErrorCode::VerifyAttestation,
        ZkErrorCode::InvalidRequestLength,
        ZkErrorCode::InvalidMessagesLength,
        ZkErrorCode::GetJsonValueFail,
        ZkErrorCode::InvalidJsonValueSize,
        ZkErrorCode::CannotFoundTimestamp,
        ZkErrorCode::ParseTimestampFailed,
        ZkErrorCode::InvalidRequestOrder,
        ZkErrorCode::InvalidRequestUrl,
        ZkErrorCode::DuplicateAccount,
        ZkErrorCode::ParseMetaData,
        ZkErrorCode::MissingProjectId,
    ]
}

#[test]
fn error_carries_code_and_message() {
    let e = ZktlsError::new(ZkErrorCode::ParseConfigData, "bad".to_string());
    assert_eq!(e.icode(), 1001);
    assert_eq!(e.code(), ZkErrorCode::ParseConfigData);
    assert_eq!(e.msg(), "bad");
}

#[test]
fn codes_count_up_from_1001() {
    let mut expected: i16 = 1001;
    for code in all_codes() {
        assert_eq!(ZktlsError::from_code(code).icode(), expected);
        expected += 1;
    }
    assert_eq!(expected, 1014);
}

#[test]
fn error_without_message_bears_the_name_of_its_code() {
    let e = ZktlsError::from_code(ZkErrorCode::InvalidMessagesLength);
    assert_eq!(e.msg(), "ZkErrorCode::InvalidMessagesLength");
    assert_eq!(e.icode(), 1004);
    let e = ZktlsError::from_code(ZkErrorCode::MissingProjectId);
    assert_eq!(e.msg(), "ZkErrorCode::MissingProjectId");
    assert_eq!(e.icode(), 1013);
}

#[test]
fn every_code_names_itself() {
    for code in all_codes() {
        assert_eq!(code.name(), format!("ZkErrorCode::{:?}", code));
    }
}

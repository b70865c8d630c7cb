use bytes::{BufMut, BytesMut};
use hi_kafka::error::{ErrorKind, ErrorResp, PayloadError};

const ALL: [ErrorKind; 15] = [
    ErrorKind::Internal,
    ErrorKind::WorkerUnavailable,
    ErrorKind::Timeout,
    ErrorKind::WorkerDraining,
    ErrorKind::Protocol,
    ErrorKind::ClusterNotRegistered,
    ErrorKind::InvalidArgument,
    ErrorKind::NotTransactional,
    ErrorKind::SubscriptionNotFound,
    ErrorKind::BrokerRetryable,
    ErrorKind::MessageTooLarge,
    ErrorKind::AuthnAuthz,
    ErrorKind::OffsetInvalid,
    ErrorKind::TxnState,
    ErrorKind::UnknownTopicOrPartition,
];

#[test]
fn test_error_resp_roundtrip() {
    let e = ErrorResp {
        kind: ErrorKind::AuthnAuthz,
        retryable: false,
        native_code: -167,
        message: "sasl auth failed".into(),
    };
    let mut buf = BytesMut::new();
    e.encode(&mut buf).unwrap();
    assert_eq!(ErrorResp::decode(&buf).unwrap(), e);
}

#[test]
fn test_unknown_kind_maps_to_internal() {
    let mut buf = BytesMut::new();
    buf.put_u16(60000);
    buf.put_u8(0);
    buf.put_i32(0);
    buf.put_u16(0);
    assert_eq!(ErrorResp::decode(&buf).unwrap().kind, ErrorKind::Internal);
}

#[test]
fn test_kind_u16_roundtrip() {
    for k in [
        ErrorKind::Internal,
        ErrorKind::WorkerUnavailable,
        ErrorKind::BrokerRetryable,
        ErrorKind::TxnState,
        ErrorKind::UnknownTopicOrPartition,
    ] {
        assert_eq!(ErrorKind::from_u16(k.as_u16()), k);
    }
}

#[test]
fn test_default_retryable() {
    assert!(ErrorKind::Timeout.default_retryable());
    assert!(ErrorKind::WorkerUnavailable.default_retryable());
    assert!(!ErrorKind::AuthnAuthz.default_retryable());
    assert!(!ErrorKind::InvalidArgument.default_retryable());
}

#[test]
fn test_truncated() {
    let buf = [0u8; 3];
    assert!(matches!(
        ErrorResp::decode(&buf),
        Err(PayloadError::Truncated)
    ));
}

#[test]
fn kinds_are_numbered_from_zero_on() {
    for (i, kind) in ALL.iter().enumerate() {
        assert_eq!(kind.as_u16(), i as u16);
        assert_eq!(ErrorKind::from_u16(i as u16), *kind);
    }
    assert_eq!(ErrorKind::from_u16(15), ErrorKind::Internal);
    assert_eq!(ErrorKind::from_u16(u16::MAX), ErrorKind::Internal);
}

#[test]
fn four_kinds_are_worth_a_retry() {
    let retryable: Vec<ErrorKind> = ALL
        .iter()
        .copied()
        .filter(|k| k.default_retryable())
        .collect();
    assert_eq!(
        retryable,
        vec![
            ErrorKind::WorkerUnavailable,
            ErrorKind::Timeout,
            ErrorKind::WorkerDraining,
            ErrorKind::BrokerRetryable,
        ]
    );
}

#[test]
fn kinds_have_distinct_stable_names() {
    assert_eq!(ErrorKind::Internal.as_str(), "INTERNAL");
    assert_eq!(ErrorKind::NotTransactional.as_str(), "NOT_TRANSACTIONAL");
    assert_eq!(
        ErrorKind::UnknownTopicOrPartition.as_str(),
        "UNKNOWN_TOPIC_OR_PARTITION"
    );
    for a in ALL {
        for b in ALL {
            assert_eq!(a.as_str() == b.as_str(), a == b);
        }
    }
}

#[test]
fn new_takes_the_default_of_the_kind() {
    let e = ErrorResp::new(ErrorKind::Timeout, "slow");
    assert_eq!(
        e,
        ErrorResp {
            kind: ErrorKind::Timeout,
            retryable: true,
            native_code: 0,
            message: "slow".to_string(),
        }
    );
    assert!(!ErrorResp::new(ErrorKind::Protocol, "odd").retryable);
}

#[test]
fn payload_bytes_are_as_documented() {
    let e = ErrorResp {
        kind: ErrorKind::TxnState,
        retryable: true,
        native_code: -2,
        message: "né".to_string(),
    };
    let expected = vec![0, 13, 1, 0xff, 0xff, 0xff, 0xfe, 0, 3, b'n', 0xc3, 0xa9];
    assert_eq!(e.to_payload(), Ok(expected.clone()));
    let mut buf = BytesMut::new();
    buf.put_u8(9);
    e.encode(&mut buf).unwrap();
    assert_eq!(buf[0], 9);
    assert_eq!(&buf[1..], &expected[..]);
}

#[test]
fn bytes_behind_the_message_are_ignored() {
    let e = ErrorResp::new(ErrorKind::Internal, "x");
    let mut payload = e.to_payload().unwrap();
    payload.extend_from_slice(&[1, 2, 3]);
    assert_eq!(ErrorResp::decode(&payload), Ok(e));
}

#[test]
fn any_nonzero_byte_means_retryable() {
    let payload = [0, 2, 7, 0, 0, 1, 0, 0, 0];
    let e = ErrorResp::decode(&payload).unwrap();
    assert!(e.retryable);
    assert_eq!(e.native_code, 256);
    assert_eq!(e.kind, ErrorKind::Timeout);
    assert_eq!(e.message, "");
}

#[test]
fn a_message_may_fill_its_prefix_and_no_more() {
    let full = ErrorResp::new(ErrorKind::Internal, &"a".repeat(65535));
    let payload = full.to_payload().unwrap();
    assert_eq!(payload.len(), 7 + 2 + 65535);
    assert_eq!(ErrorResp::decode(&payload), Ok(full));

    let long = ErrorResp::new(ErrorKind::Internal, &"a".repeat(65536));
    assert_eq!(long.to_payload(), Err(PayloadError::FieldTooLarge(65536)));
    let mut buf = BytesMut::new();
    assert_eq!(
        long.encode(&mut buf),
        Err(PayloadError::FieldTooLarge(65536))
    );
    assert_eq!(buf.len(), 7);
}

#[test]
fn a_cut_payload_is_truncated_wherever_it_is_cut() {
    let payload = ErrorResp::new(ErrorKind::Timeout, "abc").to_payload().unwrap();
    for n in 0..payload.len() {
        assert_eq!(
            ErrorResp::decode(&payload[..n]),
            Err(PayloadError::Truncated)
        );
    }
}

#[test]
fn a_message_has_to_be_utf8() {
    let payload = [0, 0, 0, 0, 0, 0, 0, 0, 2, 0xc3, 0x28];
    assert_eq!(
        ErrorResp::decode(&payload),
        Err(PayloadError::InvalidUtf8 {
            field: "error_message"
        })
    );
}

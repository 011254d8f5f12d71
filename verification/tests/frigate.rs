use sp_cli::bytes::{PublicKey, SecretKey, Txid};
use sp_cli::frigate::{
    io_failure, Call, FrigateClient, FrigateError, Outcome, Request, ServerVersion,
    SubscribeRequest, UnsubscribeRequest,
};
use sp_cli::time::Duration;

fn client() -> FrigateClient {
    FrigateClient::connect("127.0.0.1:57001", true).unwrap()
}

fn calls() -> Vec<(Call, &'static str)> {
    let scan_priv_key = SecretKey { bytes: [1; 32] };
    let spend_pub_key = PublicKey { bytes: [2; 33] };
    let subscribe =
        SubscribeRequest { scan_priv_key, spend_pub_key, start_height: Some(7), labels: None };
    let unsubscribe = UnsubscribeRequest { scan_priv_key, spend_pub_key };
    vec![
        (client().get_block_header(3), "Header request timed out"),
        (client().get_transaction(Txid { bytes: [9; 32] }), "GetTx request timed out"),
        (client().version(), "Version request timed out"),
        (client().subscribe(&subscribe), "Subscribe request timed out"),
        (client().unsubscribe(&unsubscribe), "Unsubscribe request timed out"),
    ]
}

#[test]
fn a_client_waits_ten_seconds_unless_told_otherwise() {
    assert_eq!(client().request_timeout, Duration::from_secs(10));
    assert_eq!(client().host_url, "127.0.0.1:57001");
    let patient = client().with_timeout(Duration::from_secs(60));
    assert_eq!(patient.request_timeout, Duration::from_secs(60));
    assert_eq!(patient.host_url, "127.0.0.1:57001");
    assert_eq!(patient.get_block_header(1).timeout, Duration::from_secs(60));
}

#[test]
fn a_failed_connection_is_reported() {
    let error = FrigateClient::connect("nowhere", false).unwrap_err();
    assert_eq!(error.fmt(), "Can't connect to socket");
}

#[test]
fn every_timeout_is_recognised() {
    for (call, message) in calls() {
        let error = call.complete::<u8>(Outcome::TimedOut).unwrap_err();
        assert_eq!(error.fmt(), message);
        assert!(error.is_timeout());
    }
}

#[test]
fn answers_and_failures_are_handed_on() {
    for (call, _) in calls() {
        assert_eq!(call.complete(Outcome::Answered(5)).unwrap(), 5);
        let error = call.complete::<u8>(Outcome::Failed("refused".to_string())).unwrap_err();
        assert_eq!(error.fmt(), "refused");
        assert!(!error.is_timeout());
    }
}

#[test]
fn the_protocol_version_is_taken_from_the_answer() {
    let call = client().version();
    assert_eq!(
        call.request,
        Request::ServerVersion {
            client_name: "bdk-sp".to_string(),
            min_protocol: "1.4".to_string(),
            max_protocol: "1.6".to_string(),
        }
    );
    let answer = ServerVersion {
        server_software: "Frigate".to_string(),
        protocol_version: "1.5".to_string(),
    };
    let version = FrigateClient::version_reply(&call, Outcome::Answered(answer)).unwrap();
    assert_eq!(version, "1.5");
    assert!(FrigateClient::version_reply(&call, Outcome::TimedOut).unwrap_err().is_timeout());
}

#[test]
fn a_subscription_carries_everything_that_was_asked() {
    let req = SubscribeRequest {
        scan_priv_key: SecretKey { bytes: [1; 32] },
        spend_pub_key: PublicKey { bytes: [2; 33] },
        start_height: None,
        labels: Some(vec![4, 5]),
    };
    assert_eq!(
        client().subscribe(&req).request,
        Request::SpSubscribe {
            scan_priv_key: req.scan_priv_key,
            spend_pub_key: req.spend_pub_key,
            labels: Some(vec![4, 5]),
            start_height: None,
        }
    );
}

#[test]
fn errors_of_other_crates_show_nothing() {
    let json = serde_json::from_str::<u8>("x").unwrap_err();
    let url = url::Url::parse("").unwrap_err();
    let errors = [
        FrigateError::from(json),
        FrigateError::from(url),
        FrigateError::from(jsonrpc::Error::NonceMismatch),
    ];
    assert!(matches!(errors[0], FrigateError::Serde(_)));
    assert!(matches!(errors[1], FrigateError::ParseUrl(_)));
    assert!(matches!(errors[2], FrigateError::JsonRpc(_)));
    for error in errors {
        assert_eq!(error.fmt(), "Something wrong happened");
        assert!(!error.is_timeout());
    }
}

#[test]
fn failures_of_input_and_output_are_shown() {
    let error = std::io::Error::new(std::io::ErrorKind::Other, "broken");
    let text = format!("Generic error {:?}", error);
    assert_eq!(FrigateError::from(error).fmt(), text);
    assert_eq!(io_failure("x").fmt(), "Generic error x");
}

use jxpoolminer::client::{Client, PoolConfig};
use jxpoolminer::json::JsonParam;
use jxpoolminer::stratum::{parse_response, StratumClient};
use jxpoolminer::types::{Algorithm, Share};

fn line_text(line: Vec<u8>) -> String {
    String::from_utf8(line).expect("frames are UTF-8")
}

#[test]
fn test_notify_line_updates_current_job() {
    // a stub server sends this right after connect
    let line = "{\"id\":null,\"method\":\"mining.notify\",\"params\":[\"job42\",\"00ff00ff\",\"ffffffff\"]}\n";
    let resp = parse_response(line).expect("the notification is well-formed");
    assert_eq!(resp.method.as_deref(), Some("mining.notify"));
    assert_eq!(resp.id, None);

    let mut client = Client::new(&PoolConfig::default());
    assert!(client.receive_job().is_none());
    client.on_message(&resp);

    // the job arrives within a bounded number of poll attempts
    let mut job = None;
    for _ in 0..10 {
        job = client.receive_job();
        if job.is_some() {
            break;
        }
    }
    let job = job.expect("the notification populated the job slot");
    assert_eq!(job.id, "job42");
    assert!(matches!(job.algorithm, Algorithm::SHA256));
}

#[test]
fn test_notify_needs_two_params() {
    let line = "{\"method\":\"mining.notify\",\"params\":[\"only-one\"]}\n";
    let resp = parse_response(line).expect("well-formed");
    let mut client = Client::new(&PoolConfig::default());
    client.on_message(&resp);
    assert!(client.receive_job().is_none());
}

#[test]
fn test_parse_reply_fields() {
    let resp = parse_response("{\"id\":1,\"result\":true,\"error\":null}").expect("well-formed");
    assert_eq!(resp.id, Some(1));
    assert!(matches!(resp.result, Some(JsonParam::Bool(true))));
    assert!(resp.error.is_none());
    assert!(resp.method.is_none());
    assert!(resp.params.is_none());
}

#[test]
fn test_parse_nested_params_are_opaque() {
    let resp = parse_response("{\"params\":[[\"a\",1],\"x\",7,null]}").expect("well-formed");
    let params = resp.params.expect("params present");
    assert!(matches!(params[0], JsonParam::Other));
    match &params[1] {
        JsonParam::Str(s) => assert_eq!(s, "x"),
        _ => panic!("expected a string"),
    }
    assert!(matches!(params[2], JsonParam::UInt(7)));
    assert!(matches!(params[3], JsonParam::Null));
}

#[test]
fn test_parse_numbers() {
    let resp = parse_response("{\"params\":[0,18446744073709551615,-1,1.5,1e3]}").unwrap();
    let params = resp.params.unwrap();
    assert!(matches!(params[0], JsonParam::UInt(0)));
    assert!(matches!(params[1], JsonParam::UInt(u64::MAX)));
    assert!(matches!(params[2], JsonParam::Other));
    assert!(matches!(params[3], JsonParam::Other));
    assert!(matches!(params[4], JsonParam::Other));
}

#[test]
fn test_malformed_lines_are_rejected() {
    assert!(parse_response("{oops").is_none());
    assert!(parse_response("42").is_none());
    assert!(parse_response("").is_none());
    assert!(parse_response("{\"id\":1} trailing").is_none());
    assert!(parse_response("{\"id\":1,\"id\":2}").is_none());
    assert!(parse_response("{\"id\":\"abc\"}").is_none());
    assert!(parse_response("{\"id\":1.5}").is_none());
    assert!(parse_response("{\"method\":7}").is_none());
    assert!(parse_response("{\"params\":7}").is_none());
    assert!(parse_response("{\"params\":[01]}").is_none());
}

#[test]
fn test_unknown_fields_are_ignored() {
    let resp = parse_response("{\"jsonrpc\":\"2.0\",\"id\":3,\"extra\":[{\"deep\":[1,2]}]}")
        .expect("unknown members are ignored");
    assert_eq!(resp.id, Some(3));
}

#[test]
fn test_string_escapes_decoded() {
    let resp = parse_response("{\"method\":\"a\\n\\\"b\\\\c\"}").expect("well-formed");
    assert_eq!(resp.method.as_deref(), Some("a\n\"b\\c"));
}

#[test]
fn test_subscribe_line_exact() {
    let mut stratum = StratumClient::new();
    let (id, line) = stratum.subscribe("JxPoolMiner/1.0.0");
    assert_eq!(id, 1);
    assert_eq!(
        line_text(line),
        "{\"id\":1,\"method\":\"mining.subscribe\",\"params\":[\"JxPoolMiner/1.0.0\"]}\n"
    );
}

#[test]
fn test_request_ids_strictly_increase() {
    let mut stratum = StratumClient::new();
    let (a, _) = stratum.subscribe("agent");
    let (b, _) = stratum.authorize("wallet:worker1", "x");
    let (c, line) = stratum.submit("worker1", "job42", "0000abcd", "00ff");
    assert_eq!((a, b, c), (1, 2, 3));
    assert!(line_text(line).starts_with("{\"id\":3,"));
}

#[test]
fn test_submit_share_line_exact() {
    let mut client = Client::new(&PoolConfig::default());
    let share = Share {
        job_id: "job42".to_string(),
        nonce: 0xabc,
        hash: vec![0x00, 0xff, 0x1a],
        device_id: "cpu-0".to_string(),
        timestamp: 0,
    };
    let line = client.submit_share(&share);
    // nonce as eight lowercase hex digits, hash as lowercase hex bytes
    assert_eq!(
        line_text(line),
        "{\"id\":1,\"method\":\"mining.submit\",\"params\":[\"worker1\",\"job42\",\"00000abc\",\"00ff1a\"]}\n"
    );
}

#[test]
fn test_submit_share_wide_nonce_keeps_all_digits() {
    let mut client = Client::new(&PoolConfig::default());
    let share = Share {
        job_id: "j".to_string(),
        nonce: 0x1122334455667788,
        hash: vec![],
        device_id: "cpu-0".to_string(),
        timestamp: 0,
    };
    let line = line_text(client.submit_share(&share));
    assert!(line.contains("\"1122334455667788\""));
}

#[test]
fn test_frame_escapes_special_characters() {
    let mut stratum = StratumClient::new();
    let (_, line) = stratum.authorize("wal\"let\\x", "x");
    let text = line_text(line);
    assert!(text.contains("wal\\\"let\\\\x"));
}

#[test]
fn test_request_parses_back() {
    let mut stratum = StratumClient::new();
    let (_, line) = stratum.submit("worker1", "job42", "0000abcd", "00ff");
    let text = line_text(line);
    let resp = parse_response(&text).expect("our own frames are well-formed");
    assert_eq!(resp.id, Some(1));
    assert_eq!(resp.method.as_deref(), Some("mining.submit"));
    let params = resp.params.expect("params present");
    let texts: Vec<&str> = params
        .iter()
        .map(|p| match p {
            JsonParam::Str(s) => s.as_str(),
            _ => panic!("all submit params are strings"),
        })
        .collect();
    assert_eq!(texts, vec!["worker1", "job42", "0000abcd", "00ff"]);
}

#[test]
fn test_login_frames() {
    let mut client = Client::new(&PoolConfig::default());
    let (sub, auth) = client.login_frames();
    assert_eq!(
        line_text(sub),
        "{\"id\":1,\"method\":\"mining.subscribe\",\"params\":[\"JxPoolMiner/1.0.0\"]}\n"
    );
    let auth_text = line_text(auth);
    assert!(auth_text.starts_with("{\"id\":2,\"method\":\"mining.authorize\","));
    assert!(auth_text.contains("GXC_YOUR_WALLET_ADDRESS_HERE:worker1"));
    assert!(client.is_connected());
}

use defpool_proxy::job_tracker::JobTracker;
use defpool_proxy::passthrough::PassthroughSession;
use defpool_proxy::json::{JsonNum, JsonValue};
use defpool_proxy::sv1::Sv1Message;
use defpool_proxy::translator::StratumTranslator;

#[test]
fn test_login_handling() {
    let mut translator = StratumTranslator::new();
    let login_msg = Sv1Message::login(1, "wallet123", "worker1");

    let response = translator.handle_sv1_login(&login_msg).unwrap();
    assert!(response.is_response());
    assert_eq!(translator.wallet_address(), Some("wallet123"));
    assert_eq!(translator.worker_name(), Some("worker1"));
}

#[test]
fn test_job_id_mapping() {
    let mut translator = StratumTranslator::new();
    translator.map_job("sv2_job_1".to_string(), "sv1_job_1".to_string());

    assert_eq!(
        translator.get_sv2_job_id("sv1_job_1"),
        Some("sv2_job_1".to_string())
    );
}

#[test]
fn test_job_id_remapping_replaces() {
    let mut translator = StratumTranslator::new();
    translator.map_job("old".to_string(), "sv1".to_string());
    translator.map_job("new".to_string(), "sv1".to_string());
    assert_eq!(translator.get_sv2_job_id("sv1"), Some("new".to_string()));
    assert_eq!(translator.get_sv2_job_id("absent"), None);
}

#[test]
fn test_login_without_worker() {
    let mut translator = StratumTranslator::new();
    let login_msg = Sv1Message::login(1, "walletonly", "");
    translator.handle_sv1_login(&login_msg).unwrap();
    assert_eq!(translator.wallet_address(), Some("walletonly"));
    assert_eq!(translator.worker_name(), Some(""));
}

#[test]
fn test_generated_job_ids_count_up() {
    let mut translator = StratumTranslator::new();
    assert_eq!(translator.generate_job_id(), "job_1");
    assert_eq!(translator.generate_job_id(), "job_2");
    let job = translator.create_sv1_job("blob", "00010000", 7);
    assert_eq!(job.method, Some("job".to_string()));
    match &job.params.as_ref().unwrap()[0] {
        JsonValue::Str(s) => assert_eq!(s, "job_3"),
        _ => panic!("the job id must be a string"),
    }
}

#[test]
fn test_submit_with_three_params_is_acknowledged() {
    let mut tracker = JobTracker::new(8);
    tracker.add_job("job7".to_string(), "00010000".to_string(), 5);
    let expected = tracker.get_difficulty("job7");

    let translator = StratumTranslator::new();
    let submit = Sv1Message::submit(9, "job7", "aabbccdd", "0011");
    let (response, share) = translator.handle_sv1_submit(&submit, &tracker, "pool-a");

    match response.id.as_ref().unwrap() {
        JsonValue::Num(n) => assert_eq!(*n, JsonNum { neg: false, mag: 9 }),
        _ => panic!("the response id must echo the request id"),
    }
    assert!(response.result.is_some());
    assert!(response.error.is_none());

    let share = share.unwrap();
    assert_eq!(share.difficulty, expected);
    assert_eq!(share.target_name, "pool-a");
    assert_eq!(share.wallet_address, "unknown");
    assert_eq!(share.worker_name, "worker1");
    assert!(share.valid);
}

#[test]
fn test_submit_with_too_few_params_is_refused() {
    let tracker = JobTracker::new(8);
    let translator = StratumTranslator::new();
    let mut submit = Sv1Message::submit(2, "job7", "aabbccdd", "0011");
    submit.params.as_mut().unwrap().pop();

    let (response, share) = translator.handle_sv1_submit(&submit, &tracker, "pool-a");
    assert!(response.error.is_some());
    assert!(response.result.is_none());
    assert!(share.is_none());
}

#[test]
fn test_process_dispatches_by_method() {
    let tracker = JobTracker::new(8);
    let mut translator = StratumTranslator::new();

    let login = Sv1Message::login(1, "w", "k");
    let (resp, share) = translator.process_sv1_message(&login, &tracker, "t").unwrap();
    assert!(resp.unwrap().is_response());
    assert!(share.is_none());

    let keepalive = Sv1Message::from_json(r#"{"id":2,"method":"keepalived","params":[]}"#).unwrap();
    let (resp, _) = translator.process_sv1_message(&keepalive, &tracker, "t").unwrap();
    assert!(resp.unwrap().result.is_some());

    let getjob = Sv1Message::from_json(r#"{"id":3,"method":"getjob","params":[]}"#).unwrap();
    let (resp, _) = translator.process_sv1_message(&getjob, &tracker, "t").unwrap();
    assert!(resp.is_none());

    let unknown = Sv1Message::from_json(r#"{"id":4,"method":"frobnicate"}"#).unwrap();
    let (resp, _) = translator.process_sv1_message(&unknown, &tracker, "t").unwrap();
    assert!(resp.unwrap().error.is_some());

    let response_msg = Sv1Message::from_json(r#"{"id":5,"result":{"status":"OK"}}"#).unwrap();
    let (resp, share) = translator.process_sv1_message(&response_msg, &tracker, "t").unwrap();
    assert!(resp.is_none());
    assert!(share.is_none());
}

#[test]
fn test_malformed_login_is_terminal() {
    let tracker = JobTracker::new(8);
    let mut translator = StratumTranslator::new();

    // No params at all.
    let bare = Sv1Message::from_json(r#"{"id":1,"method":"login"}"#).unwrap();
    assert!(translator.handle_sv1_login(&bare).is_err());

    // An empty parameter list.
    let empty = Sv1Message::from_json(r#"{"id":1,"method":"login","params":[]}"#).unwrap();
    assert!(translator.handle_sv1_login(&empty).is_err());

    // A first parameter that is not a string.
    let wrong = Sv1Message::from_json(r#"{"id":1,"method":"login","params":[7]}"#).unwrap();
    assert!(translator.process_sv1_message(&wrong, &tracker, "t").is_err());

    // Nothing was stored by any of the refused logins.
    assert_eq!(translator.wallet_address(), None);
    assert_eq!(translator.worker_name(), None);
}

#[test]
fn test_passthrough_observation() {
    let mut session = PassthroughSession::new(Some("default_wallet".to_string()), 8);

    // A job notification from the pool is tracked.
    let job = Sv1Message::from_json(
        r#"{"method":"job","params":["job1","blob","00010000",77]}"#,
    )
    .unwrap();
    session.observe_pool_line(&job);
    assert_eq!(session.job_count(), 1);

    // A submit before any login reports under the configured wallet, at
    // the tracked difficulty.
    let submit = Sv1Message::submit(5, "job1", "nonce", "hash");
    let share = session.observe_miner_line(&submit, "pool-a").unwrap();
    assert_eq!(share.wallet_address, "default_wallet");
    assert_eq!(share.worker_name, "worker1");
    assert_eq!(share.difficulty.num, 0xFFFFFFFF);
    assert_eq!(share.difficulty.den, 0x10000);

    // A login renames the session.
    let login = Sv1Message::login(1, "miner9", "rig2");
    assert!(session.observe_miner_line(&login, "pool-a").is_none());
    let share = session.observe_miner_line(&submit, "pool-a").unwrap();
    assert_eq!(share.wallet_address, "miner9");
    assert_eq!(share.worker_name, "rig2");

    // A submit for an unknown job falls back to the default difficulty.
    let other = Sv1Message::submit(6, "nope", "nonce", "hash");
    let share = session.observe_miner_line(&other, "pool-a").unwrap();
    assert_eq!(share.difficulty.num, 1000);
    assert_eq!(share.difficulty.den, 1);
}

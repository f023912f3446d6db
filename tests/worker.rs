use worker::credentials::AwsCredsEncrypted;
use worker::signer::UtcTime;
use worker::worker::{Action, BackendWorker, WorkerRequest, WorkerResponse, WorkerStatus};

fn now() -> UtcTime {
    UtcTime::new(2022, 4, 17, 9, 19, 35).unwrap()
}

fn is_status_ready(r: &WorkerResponse) -> bool {
    matches!(r, WorkerResponse::Status(WorkerStatus::Ready))
}

fn is_status_not_ready(r: &WorkerResponse) -> bool {
    matches!(r, WorkerResponse::Status(WorkerStatus::NotReady))
}

fn copy(b: &AwsCredsEncrypted) -> AwsCredsEncrypted {
    AwsCredsEncrypted {
        salt: b.salt.clone(),
        lambda_host: b.lambda_host.clone(),
        key_id: b.key_id.clone(),
        access_key: b.access_key.clone(),
    }
}

fn plaintext_bundle(w: &mut BackendWorker) -> AwsCredsEncrypted {
    let req = WorkerRequest::SetCredsPlaintext(
        "p".to_string(),
        "host.example".to_string(),
        "AKIA1".to_string(),
        "SECRET1".to_string(),
    );
    match w.received(req, 1, &now()) {
        Action::Persist(b) => b,
        other => panic!("unexpected {:?}", other),
    }
}

#[test]
fn starts_not_ready() {
    let w = BackendWorker::create();
    assert!(is_status_not_ready(&w.get_status()));
    assert!(matches!(WorkerStatus::default(), WorkerStatus::NotReady));
}

#[test]
fn status_request_reports_without_change() {
    let mut w = BackendWorker::create();
    match w.received(WorkerRequest::StatusRequest, 3, &now()) {
        Action::Respond(r) => assert!(is_status_not_ready(&r)),
        other => panic!("unexpected {:?}", other),
    }
}

#[test]
fn backend_request_before_credentials_is_answered_with_status() {
    let mut w = BackendWorker::create();
    match w.received(WorkerRequest::BackendRequest(b"{}".to_vec()), 3, &now()) {
        Action::Respond(r) => assert!(is_status_not_ready(&r)),
        other => panic!("unexpected {:?}", other),
    }
}

#[test]
fn plaintext_then_encrypted_round_trip() {
    let mut first = BackendWorker::create();
    let bundle = plaintext_bundle(&mut first);
    assert!(is_status_ready(&first.get_status()));
    assert!(!bundle.lambda_host.contains("host.example"));
    assert!(!bundle.access_key.contains("SECRET1"));

    let mut fresh = BackendWorker::create();
    match fresh.received(WorkerRequest::SetCredsEncrypted("p".to_string(), bundle), 2, &now()) {
        Action::Respond(r) => assert!(is_status_ready(&r)),
        other => panic!("unexpected {:?}", other),
    }
    match fresh.received(WorkerRequest::BackendRequest(b"{}".to_vec()), 2, &now()) {
        Action::Send(slot, req) => {
            assert_eq!(slot, 0);
            assert_eq!(req.host, "host.example");
            assert_eq!(req.method, "POST");
            assert_eq!(req.url, "https://host.example/");
            assert!(req.authorization.starts_with(
                "AWS4-HMAC-SHA256 Credential=AKIA1/20220417/eu-west-1/lambda/aws4_request, "
            ));
        }
        other => panic!("unexpected {:?}", other),
    }
}

#[test]
fn wrong_password_never_makes_ready() {
    let mut first = BackendWorker::create();
    let bundle = plaintext_bundle(&mut first);
    let mut fresh = BackendWorker::create();
    let r = fresh.set_password("not p".to_string(), copy(&bundle));
    assert!(is_status_not_ready(&r));
    assert!(is_status_not_ready(&fresh.get_status()));
    // A ready proxy keeps its session after a failed attempt.
    let r = first.set_password("not p".to_string(), copy(&bundle));
    assert!(is_status_not_ready(&r));
    assert!(is_status_ready(&first.get_status()));
}

#[test]
fn malformed_bundle_is_not_ready() {
    let mut first = BackendWorker::create();
    let bundle = plaintext_bundle(&mut first);
    let mut bad_salt = copy(&bundle);
    bad_salt.salt = "bad".to_string();
    let mut bad_field = copy(&bundle);
    bad_field.key_id = "bad:bad".to_string();
    let mut w = BackendWorker::create();
    assert!(is_status_not_ready(&w.set_password("p".to_string(), bad_salt)));
    assert!(is_status_not_ready(&w.set_password("p".to_string(), bad_field)));
    assert!(is_status_not_ready(&w.get_status()));
}

#[test]
fn responses_reach_callers_in_submission_order() {
    let mut w = BackendWorker::create();
    let _ = plaintext_bundle(&mut w);
    let mut slots = Vec::new();
    for who in [7u64, 8, 9] {
        match w.received(WorkerRequest::BackendRequest(vec![who as u8]), who, &now()) {
            Action::Send(slot, _) => slots.push(slot),
            other => panic!("unexpected {:?}", other),
        }
    }
    assert_eq!(slots, vec![0, 1, 2]);
    assert!(w.update(2, Some(b"C".to_vec())).is_empty());
    let d = w.update(0, Some(b"A".to_vec()));
    assert_eq!(d.iter().map(|d| d.caller).collect::<Vec<_>>(), vec![7]);
    let d = w.update(1, None);
    assert_eq!(d.iter().map(|d| d.caller).collect::<Vec<_>>(), vec![8, 9]);
    assert_eq!(d[0].response, None);
    assert_eq!(d[1].response, Some(b"C".to_vec()));
}

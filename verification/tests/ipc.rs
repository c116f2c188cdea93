//! What the client and the server say to each other.

use std::cell::RefCell;

use secretd::aws::{
    AwsAccessLevel, AwsConfiguration, AwsCredentialProcessOutput, AwsDeviceAuthorization,
    AwsLoginStatus, AwsTarget,
};
use secretd::controller::{
    ApprovalDecision, AwsRequestResolution, Controller, RequestResolution,
};
use secretd::ipc::client::{get_aws_credentials, get_secret, start_aws_login};
use secretd::ipc::protocol::{ClientRequest, ClientResponse, EndpointFile};
use secretd::ipc::server::{
    admits, answer_secret_request, begin_aws_credentials, begin_aws_login, begin_secret_request,
    check_request, claim_aws_login, constant_time_equal, discovery_returned, endpoint_for,
    endpoint_from, login_announced, login_returned, new_endpoint, read_request, requester, serve_next,
    AwsServeAction, AwsServeEvent, SecretServe, ServerRequest, MAX_CONNECTIONS, MAX_REQUEST_BYTES,
};
use secretd::process::ProcessIdentity;
use secretd::vault::{VaultError, VaultFile, VaultPlaintext};

fn process(pid: u32) -> ProcessIdentity {
    ProcessIdentity {
        pid,
        ppid: 1,
        started_at: "start".to_owned(),
        executable: "/bin/tool".to_owned(),
        command: "tool".to_owned(),
    }
}

fn inspect(pid: u32) -> Result<Option<ProcessIdentity>, String> {
    Ok(Some(process(pid)))
}

fn encode(_: &VaultPlaintext) -> Result<Vec<u8>, String> {
    Ok(b"{}".to_vec())
}

fn discard(_: &VaultFile) -> Result<(), VaultError> {
    Ok(())
}

fn endpoint() -> EndpointFile {
    EndpointFile {
        version: 1,
        host: "127.0.0.1".to_owned(),
        port: 4_000,
        token: "token".to_owned(),
    }
}

fn request(action: &str) -> ClientRequest {
    ClientRequest {
        version: 1,
        token: "token".to_owned(),
        action: action.to_owned(),
        secret: Some("service/token".to_owned()),
        profile: Some("prod".to_owned()),
        pid: 42,
    }
}

fn open_controller() -> Controller {
    let mut controller = Controller::new("vault.json".to_owned());
    controller.create_vault("correct horse", Ok(false), &encode, &discard).unwrap();
    controller
}

fn aws_controller() -> Controller {
    let mut controller = open_controller();
    let configuration = AwsConfiguration {
        start_url: "https://example.awsapps.com/start".to_owned(),
        sso_region: "ca-central-1".to_owned(),
        targets: vec![AwsTarget {
            profile: "prod".to_owned(),
            account_id: "123456789012".to_owned(),
            read_only_role: "ReadOnly".to_owned(),
            admin_role: "Administrator".to_owned(),
            region: String::new(),
        }],
    };
    controller.save_aws_configuration(configuration, &encode, &discard).unwrap();
    controller
}

fn output() -> AwsCredentialProcessOutput {
    AwsCredentialProcessOutput {
        version: 1,
        access_key_id: "key".to_owned(),
        secret_access_key: "secret".to_owned(),
        session_token: "token".to_owned(),
        expiration: "2026-07-31T12:00:00Z".to_owned(),
        account_id: "123456789012".to_owned(),
    }
}

fn authorization() -> AwsDeviceAuthorization {
    AwsDeviceAuthorization {
        verification_uri: "https://device.example".to_owned(),
        verification_uri_complete: None,
        user_code: "CODE".to_owned(),
        expires_at: 10,
    }
}

#[test]
fn token_comparison_checks_length_and_contents() {
    assert!(constant_time_equal("abc", "abc"));
    assert!(!constant_time_equal("abc", "abd"));
    assert!(!constant_time_equal("abc", "abcx"));
}

#[test]
fn clients_say_what_they_want() {
    let sent = RefCell::new(Vec::new());
    let exchange = |to: &EndpointFile, request: &ClientRequest| {
        assert_eq!(to.port, 4_000);
        sent.borrow_mut().push((
            request.action.clone(),
            request.secret.clone(),
            request.profile.clone(),
            request.token.clone(),
            request.pid,
        ));
        Ok(Some(ClientResponse { ok: true, value: Some("value".to_owned()), error: None }))
    };
    assert_eq!(get_secret(Ok(endpoint()), "a/b", 7, &exchange).unwrap(), "value");
    assert_eq!(get_aws_credentials(Ok(endpoint()), "prod", 7, &exchange).unwrap(), "value");
    assert_eq!(start_aws_login(Ok(endpoint()), 7, &exchange).unwrap(), "value");
    let token = || "token".to_owned();
    assert_eq!(
        sent.into_inner(),
        [
            ("get".to_owned(), Some("a/b".to_owned()), None, token(), 7),
            ("aws-credentials".to_owned(), None, Some("prod".to_owned()), token(), 7),
            ("aws-login".to_owned(), None, None, token(), 7),
        ]
    );
}

#[test]
fn clients_tell_what_went_wrong() {
    let silent = |_: &EndpointFile, _: &ClientRequest| Ok(None);
    let ask = |endpoint: Result<EndpointFile, String>| get_secret(endpoint, "a", 7, &silent);
    assert_eq!(
        ask(Err("SecretD desktop is not running".to_owned())).unwrap_err(),
        "SecretD desktop is not running"
    );
    let invalid = "SecretD runtime file is invalid";
    let mut strange = endpoint();
    strange.version = 2;
    assert_eq!(ask(Ok(strange)).unwrap_err(), invalid);
    let mut strange = endpoint();
    strange.host = "example.com".to_owned();
    assert_eq!(ask(Ok(strange)).unwrap_err(), invalid);
    let mut strange = endpoint();
    strange.token = String::new();
    assert_eq!(ask(Ok(strange)).unwrap_err(), invalid);
    assert_eq!(ask(Ok(endpoint())).unwrap_err(), "SecretD closed the request");
    let reply = |ok: bool, value: Option<&str>, error: Option<&str>| {
        let exchange = move |_: &EndpointFile, _: &ClientRequest| {
            Ok(Some(ClientResponse {
                ok,
                value: value.map(|value| value.to_owned()),
                error: error.map(|error| error.to_owned()),
            }))
        };
        get_secret(Ok(endpoint()), "a", 7, &exchange)
    };
    assert_eq!(reply(true, None, None).unwrap_err(), "SecretD returned an invalid response");
    assert_eq!(reply(false, None, Some("denied")).unwrap_err(), "denied");
    assert_eq!(reply(false, None, None).unwrap_err(), "Secret request failed");
    let broken = |_: &EndpointFile, _: &ClientRequest| Err("no connection".to_owned());
    assert_eq!(get_secret(Ok(endpoint()), "a", 7, &broken).unwrap_err(), "no connection");
}

#[test]
fn servers_check_what_they_are_asked() {
    assert!(matches!(
        check_request(request("get"), "token"),
        Ok(ServerRequest::Get { secret, pid: 42 }) if secret == "service/token"
    ));
    assert!(matches!(
        check_request(request("aws-credentials"), "token"),
        Ok(ServerRequest::AwsCredentials { profile, pid: 42 }) if profile == "prod"
    ));
    assert!(matches!(check_request(request("aws-login"), "token"), Ok(ServerRequest::AwsLogin)));
    let refused = |request: ClientRequest| match check_request(request, "token") {
        Ok(_) => panic!("nothing was refused"),
        Err(error) => error,
    };
    let mut stranger = request("get");
    stranger.token = "guess".to_owned();
    assert_eq!(refused(stranger), "Authentication failed");
    let mut newer = request("get");
    newer.version = 2;
    assert_eq!(refused(newer), "Invalid request");
    let mut nobody = request("get");
    nobody.pid = 0;
    assert_eq!(refused(nobody), "Invalid request");
    let mut empty = request("get");
    empty.secret = Some(String::new());
    assert_eq!(refused(empty), "Invalid request");
    let mut empty = request("aws-credentials");
    empty.profile = None;
    assert_eq!(refused(empty), "Invalid request");
    assert_eq!(refused(request("put")), "Invalid request");
}

#[test]
fn requests_that_are_too_large_are_not_read() {
    let parse = |bytes: &Vec<u8>| if bytes.is_empty() { None } else { Some(request("get")) };
    let refused = |bytes: Result<Vec<u8>, String>| match read_request(bytes, &parse) {
        Ok(_) => panic!("nothing was refused"),
        Err(error) => error,
    };
    assert!(read_request(Ok(vec![1; MAX_REQUEST_BYTES as usize]), &parse).is_ok());
    assert_eq!(refused(Ok(vec![1; MAX_REQUEST_BYTES as usize + 1])), "Request is too large");
    assert_eq!(refused(Ok(Vec::new())), "Invalid request");
    assert_eq!(refused(Err("reset".to_owned())), "Invalid request");
    assert!(admits(MAX_CONNECTIONS - 1));
    assert!(!admits(MAX_CONNECTIONS));
}

#[test]
fn endpoints_carry_a_random_token() {
    let first = new_endpoint(4_000).unwrap();
    let second = new_endpoint(4_000).unwrap();
    assert_eq!(first.version, 1);
    assert_eq!(first.host, "127.0.0.1");
    assert_eq!(first.port, 4_000);
    // Thirty-two bytes in base64.
    assert_eq!(first.token.len(), 44);
    assert_ne!(first.token, second.token);
    let known = endpoint_for(1, &vec![0, 16, 131]);
    assert_eq!(known.token, "ABCD");
    assert_eq!(endpoint_from(1, Ok(vec![0, 16, 131])).unwrap().token, "ABCD");
    assert_eq!(endpoint_from(1, Err("no entropy".to_owned())).unwrap_err(), "no entropy");
}

#[test]
fn requesters_have_a_lineage() {
    assert_eq!(
        requester(true, Ok(Vec::new())).unwrap_err(),
        "Unable to inspect the requesting process"
    );
    assert_eq!(requester(true, Err("no access".to_owned())).unwrap_err(), "no access");
    let (verified, tree) = requester(false, Ok(vec![process(7)])).unwrap();
    assert!(!verified);
    assert_eq!(tree, [process(7)]);
}

#[test]
fn secrets_are_served_after_approval() {
    let mut controller = open_controller();
    controller.save_secret("token", "secret", None, &encode, &discard).unwrap();
    let asked = Ok((true, vec![process(7)]));
    let outcome = begin_secret_request(&mut controller, "token", asked).unwrap();
    let SecretServe::Waiting(wait) = outcome else {
        panic!("the first request waits");
    };
    assert_eq!(wait.secret, "token");
    controller.respond(&wait.id, ApprovalDecision::Temporary, None, None).unwrap();
    let answer = controller.take_resolution(&wait.id);
    assert_eq!(answer, Some(RequestResolution::Approved));
    assert_eq!(
        answer_secret_request(&mut controller, &wait, answer).unwrap(),
        "secret"
    );
    let asked = Ok((true, vec![process(7)]));
    assert!(matches!(
        begin_secret_request(&mut controller, "token", asked),
        Ok(SecretServe::Released(value)) if value == "secret"
    ));
    let refused = "Request denied or timed out";
    let denied = Some(RequestResolution::Denied);
    assert_eq!(
        answer_secret_request(&mut controller, &wait, denied).unwrap_err(),
        refused
    );
    assert_eq!(
        answer_secret_request(&mut controller, &wait, None).unwrap_err(),
        refused
    );
    let failed = Some(RequestResolution::Failed("Secret not found".to_owned()));
    assert_eq!(
        answer_secret_request(&mut controller, &wait, failed).unwrap_err(),
        "Secret not found"
    );
}

#[test]
fn credentials_are_served_after_approval_and_a_login() {
    let mut controller = aws_controller();
    let step = begin_aws_credentials(
        &mut controller,
        "prod",
        Ok((true, vec![process(7)])),
        &inspect,
    );
    let AwsServeAction::Await { id } = step.action else {
        panic!("the first request waits");
    };
    assert!(step.notify);
    controller.respond_aws(&id, Some(AwsAccessLevel::Admin), None, None).unwrap();
    let answer = controller.take_aws_resolution(&id);
    let step = serve_next(
        step.stage,
        &mut controller,
        AwsServeEvent::Answered(answer),
        &encode,
        &discard,
    );
    assert!(matches!(step.action, AwsServeAction::Acquire));
    let step =
        serve_next(step.stage, &mut controller, AwsServeEvent::Acquired(Ok(())), &encode, &discard);
    let AwsServeAction::Fetch { settings, profile, level } = step.action else {
        panic!("the credentials are fetched");
    };
    assert_eq!(level, AwsAccessLevel::Admin);
    assert_eq!(profile, "prod");
    let expired = AwsServeEvent::Fetched {
        settings,
        result: Err("AWS SSO session has expired".to_owned()),
    };
    let step = serve_next(step.stage, &mut controller, expired, &encode, &discard);
    let AwsServeAction::LogIn { .. } = step.action else {
        panic!("an expired session is renewed");
    };
    assert!(matches!(controller.aws_login, AwsLoginStatus::Starting));
    let step =
        serve_next(step.stage, &mut controller, AwsServeEvent::LoggedIn(Ok(())), &encode, &discard);
    let AwsServeAction::Fetch { settings, profile, .. } = step.action else {
        panic!("the credentials are fetched again");
    };
    assert_eq!(profile, "prod");
    let fetched = AwsServeEvent::Fetched { settings, result: Ok(output()) };
    let step = serve_next(step.stage, &mut controller, fetched, &encode, &discard);
    let AwsServeAction::Respond(Ok(given)) = step.action else {
        panic!("the credentials are given");
    };
    assert_eq!(given.access_key_id, "key");
}

#[test]
fn denied_requests_get_no_credentials() {
    let refused = |action: AwsServeAction| match action {
        AwsServeAction::Respond(Err(error)) => error,
        _ => panic!("nothing was refused"),
    };
    let denied = "AWS credential request denied or timed out";
    let mut controller = aws_controller();
    let asked = || Ok((true, vec![process(7)]));
    let step = begin_aws_credentials(&mut controller, "prod", asked(), &inspect);
    let AwsServeAction::Await { id } = step.action else {
        panic!("the first request waits");
    };
    controller.respond_aws(&id, None, None, None).unwrap();
    assert_eq!(controller.take_aws_resolution(&id), Some(AwsRequestResolution::Denied));
    let answer = AwsServeEvent::Answered(Some(AwsRequestResolution::Denied));
    let step = serve_next(step.stage, &mut controller, answer, &encode, &discard);
    assert_eq!(refused(step.action), denied);
    let step = begin_aws_credentials(&mut controller, "prod", asked(), &inspect);
    assert_eq!(refused(step.action), denied);
    let step = begin_aws_credentials(&mut controller, "dev", asked(), &inspect);
    assert_eq!(refused(step.action), "AWS profile 'dev' is not configured in secretd");
}

#[test]
fn logins_are_claimed_shown_and_ended() {
    let mut controller = open_controller();
    assert_eq!(
        begin_aws_login(&controller).unwrap_err(),
        "Configure AWS SSO before logging in"
    );
    controller = aws_controller();
    assert_eq!(begin_aws_login(&controller), Ok(None));
    assert!(claim_aws_login(&mut controller, Some(5)).unwrap().is_none());
    let settings = claim_aws_login(&mut controller, None).unwrap().unwrap();
    assert!(matches!(controller.aws_login, AwsLoginStatus::Starting));
    login_announced(&mut controller, authorization());
    assert!(matches!(controller.aws_login, AwsLoginStatus::AwaitingUser(_)));
    let settings = login_returned(&mut controller, Ok(settings), &encode, &discard).unwrap();
    assert!(matches!(controller.aws_login, AwsLoginStatus::Discovering));
    discovery_returned(
        &mut controller,
        settings,
        Err("no accounts".to_owned()),
        &encode,
        &discard,
    );
    assert!(matches!(&controller.aws_login, AwsLoginStatus::Failed(error)
        if error.contains("no accounts")));
    let failed = login_returned(&mut controller, Err("expired".to_owned()), &encode, &discard);
    assert!(failed.is_err());
    assert!(matches!(&controller.aws_login, AwsLoginStatus::Failed(error) if error == "expired"));
}

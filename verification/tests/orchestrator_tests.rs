use colis_session::backend::{
    auth_request, auth_url, interpret, login_name, token_from_document, AuthError, AuthRequest,
    FailureClass,
    BackendOutcome, DEFAULT_TTL_HOURS,
};
use colis_session::json::parse;
use colis_session::orchestrator::{AuthOrchestrator, Step};
use colis_session::session::AccountKey;
use std::cell::Cell;

const T0: i64 = 1_700_000_000;
const HOUR: i64 = 3600;

fn body(text: &str) -> BackendOutcome {
    BackendOutcome::Response { body: text.to_string() }
}

#[test]
fn end_to_end_scenario() {
    let mut orchestrator = AuthOrchestrator::new(24);
    let key = AccountKey::new("U1", "S1");
    let calls = Cell::new(0u32);

    let first = orchestrator
        .ensure_token_at(&key, T0, |asked: &AccountKey, hours: u32| {
            calls.set(calls.get() + 1);
            assert_eq!(asked, &AccountKey::new("U1", "S1"));
            assert_eq!(hours, 24);
            body("{\"SsoHopps\": \"abc123\"}")
        })
        .expect("token");
    assert_eq!(first.session.token(), "abc123");
    assert!(first.freshly_minted);
    assert_eq!(first.session.issued_at(), T0);
    assert_eq!(first.session.expires_at(), T0 + 24 * HOUR);
    assert_eq!(calls.get(), 1);

    let second = orchestrator
        .ensure_token_at(&key, T0 + HOUR, |_: &AccountKey, _: u32| {
            calls.set(calls.get() + 1);
            body("{\"SsoHopps\": \"unexpected\"}")
        })
        .expect("token");
    assert_eq!(second.session.token(), "abc123");
    assert!(!second.freshly_minted);
    assert_eq!(calls.get(), 1);

    let third = orchestrator
        .ensure_token_at(&key, T0 + 25 * HOUR, |_: &AccountKey, _: u32| {
            calls.set(calls.get() + 1);
            body("{\"SsoHopps\": \"def456\"}")
        })
        .expect("token");
    assert_eq!(third.session.token(), "def456");
    assert!(third.freshly_minted);
    assert_eq!(third.session.issued_at(), T0 + 25 * HOUR);
    assert_eq!(calls.get(), 2);
}

#[test]
fn a_token_is_stale_exactly_at_its_expiry() {
    let mut orchestrator = AuthOrchestrator::new(24);
    let key = AccountKey::new("U1", "S1");
    orchestrator
        .ensure_token_at(&key, T0, |_: &AccountKey, _: u32| body("{\"token\": \"one\"}"))
        .expect("token");
    let before = orchestrator
        .ensure_token_at(&key, T0 + 24 * HOUR - 1, |_: &AccountKey, _: u32| {
            body("{\"token\": \"two\"}")
        })
        .expect("token");
    assert_eq!(before.session.token(), "one");
    let at = orchestrator
        .ensure_token_at(&key, T0 + 24 * HOUR, |_: &AccountKey, _: u32| {
            body("{\"token\": \"two\"}")
        })
        .expect("token");
    assert_eq!(at.session.token(), "two");
    assert!(at.freshly_minted);
}

#[test]
fn concurrent_callers_cause_one_exchange_and_share_the_token() {
    let mut orchestrator = AuthOrchestrator::new(24);
    let key = AccountKey::new("U1", "S1");
    let mut exchanges = 0;
    let mut waiting = 0;
    for caller in 0..5 {
        match orchestrator.begin_at(&key, T0 + caller) {
            Step::Authenticate => exchanges += 1,
            Step::Pending => waiting += 1,
            Step::Ready { .. } => panic!("nothing is cached yet"),
        }
    }
    assert_eq!(exchanges, 1);
    assert_eq!(waiting, 4);
    assert!(orchestrator.is_in_flight(&key));

    let minted = orchestrator
        .complete_at(&key, body("{\"SsoHopps\": \"shared\"}"), T0 + 7)
        .expect("token");
    assert_eq!(minted.token(), "shared");
    assert_eq!(minted.issued_at(), T0 + 7);
    assert!(!orchestrator.is_in_flight(&key));

    for caller in 0..5 {
        match orchestrator.begin_at(&key, T0 + 8 + caller) {
            Step::Ready { session } => assert_eq!(session, minted),
            _ => panic!("every caller is served the cached token"),
        }
    }
}

#[test]
fn other_accounts_are_not_held_up() {
    let mut orchestrator = AuthOrchestrator::new(24);
    let first = AccountKey::new("U1", "S1");
    let second = AccountKey::new("U2", "S1");
    assert_eq!(orchestrator.begin_at(&first, T0), Step::Authenticate);
    assert_eq!(orchestrator.begin_at(&second, T0), Step::Authenticate);
    assert_eq!(orchestrator.begin_at(&first, T0), Step::Pending);
    orchestrator.complete_at(&second, body("{\"token\": \"b\"}"), T0).expect("token");
    assert!(orchestrator.is_in_flight(&first));
    assert!(!orchestrator.is_in_flight(&second));
    assert_eq!(orchestrator.cached(&second).expect("cached").token(), "b");
    assert_eq!(orchestrator.cached(&first), None);
}

#[test]
fn a_failed_exchange_is_surfaced_and_not_cached() {
    let mut orchestrator = AuthOrchestrator::new(24);
    let key = AccountKey::new("U1", "S1");
    let refused = orchestrator.ensure_token_at(&key, T0, |_: &AccountKey, _: u32| {
        BackendOutcome::Failed { message: "bad password".to_string() }
    });
    assert_eq!(
        refused,
        Err(AuthError::UpstreamAuthFailed { message: "bad password".to_string() })
    );
    assert_eq!(orchestrator.cached(&key), None);

    let late = orchestrator
        .ensure_token_at(&key, T0, |_: &AccountKey, _: u32| BackendOutcome::TimedOut);
    assert_eq!(late, Err(AuthError::Timeout));
    assert_eq!(orchestrator.cached(&key), None);
}

#[test]
fn an_unknown_shape_is_unparseable_with_its_field_names() {
    let mut orchestrator = AuthOrchestrator::new(24);
    let key = AccountKey::new("U1", "S1");
    let result = orchestrator.ensure_token_at(&key, T0, |_: &AccountKey, _: u32| {
        body("{\"message\": \"welcome\", \"isAuthentif\": true}")
    });
    assert_eq!(
        result,
        Err(AuthError::ResponseUnparseable {
            fields: vec!["isAuthentif".to_string(), "message".to_string()]
        })
    );
    assert_eq!(orchestrator.cached(&key), None);
}

#[test]
fn a_body_that_is_no_document_is_unparseable() {
    assert_eq!(
        interpret(body("<html>502</html>")),
        Err(AuthError::ResponseUnparseable { fields: vec![] })
    );
    assert_eq!(token_from_document(None), Err(AuthError::ResponseUnparseable { fields: vec![] }));
    let document = parse("{\"accessToken\": \"tok\"}");
    assert_eq!(token_from_document(document.as_ref()), Ok("tok".to_string()));
}

#[test]
fn a_failed_exchange_ends_the_wait_of_the_others() {
    let mut orchestrator = AuthOrchestrator::new(24);
    let key = AccountKey::new("U1", "S1");
    assert_eq!(orchestrator.begin_at(&key, T0), Step::Authenticate);
    assert_eq!(orchestrator.begin_at(&key, T0), Step::Pending);
    let failed = orchestrator.complete_at(&key, BackendOutcome::TimedOut, T0 + 30);
    assert_eq!(failed, Err(AuthError::Timeout));
    assert!(!orchestrator.is_in_flight(&key));
    assert_eq!(orchestrator.begin_at(&key, T0 + 31), Step::Authenticate);
}

#[test]
fn begin_evicts_stale_entries_of_every_account() {
    let mut orchestrator = AuthOrchestrator::new(1);
    let old = AccountKey::new("U1", "S1");
    let other = AccountKey::new("U2", "S1");
    orchestrator.conclude_at(&old, Ok("t".to_string()), T0).expect("token");
    assert!(orchestrator.cached(&old).is_some());
    assert_eq!(orchestrator.begin_at(&other, T0 + 2 * HOUR), Step::Authenticate);
    assert_eq!(orchestrator.cached(&old), None);
}

#[test]
fn the_window_is_the_configured_one() {
    assert_eq!(DEFAULT_TTL_HOURS, 24);
    let mut orchestrator = AuthOrchestrator::new(2);
    assert_eq!(orchestrator.ttl_hours(), 2);
    let key = AccountKey::new("U1", "S1");
    let session = orchestrator.complete_at(&key, body("{\"Token\": \"x\"}"), 100).expect("token");
    assert_eq!(session.expires_at(), 100 + 2 * HOUR);
}

#[test]
fn the_clock_variants_agree_with_each_other() {
    let mut orchestrator = AuthOrchestrator::new(24);
    let key = AccountKey::new("U1", "S1");
    let (now, step) = orchestrator.begin(&key);
    assert!(now > 1_600_000_000);
    assert_eq!(step, Step::Authenticate);
    let session = orchestrator.complete(&key, body("{\"token\": \"clock\"}")).expect("token");
    assert!(session.issued_at() >= now);
    let again = orchestrator
        .ensure_token(&key, |_: &AccountKey, _: u32| BackendOutcome::TimedOut)
        .expect("served from the cache");
    assert_eq!(again.session, session);
    assert!(!again.freshly_minted);
}

#[test]
fn the_request_carries_the_login_of_the_account() {
    assert_eq!(login_name("S1", "U1"), "S1_U1");
    assert_eq!(
        auth_request("U1", "secret", "S1", 24),
        Ok(AuthRequest {
            login: "S1_U1".to_string(),
            password: "secret".to_string(),
            societe: "S1".to_string(),
            token_hours: 24,
        })
    );
    assert_eq!(
        auth_url("https://auth.example"),
        "https://auth.example/api/auth/login/Membership"
    );
}

#[test]
fn incomplete_credentials_are_refused() {
    let refused =
        Err(AuthError::UpstreamAuthFailed { message: "Credenciales incompletas".to_string() });
    assert_eq!(auth_request("", "secret", "S1", 24), refused);
    assert_eq!(auth_request("U1", "", "S1", 24), refused);
    assert_eq!(auth_request("U1", "secret", "", 24), refused);
}

#[test]
fn a_token_obtained_by_the_caller_is_stored_after_eviction() {
    let mut orchestrator = AuthOrchestrator::new(1);
    let old = AccountKey::new("U1", "S1");
    let new = AccountKey::new("U2", "S1");
    orchestrator.store_at(&old, "old".to_string(), T0);
    assert_eq!(orchestrator.begin_at(&new, T0), Step::Authenticate);
    let session = orchestrator.store_at(&new, "new".to_string(), T0 + 2 * HOUR);
    assert_eq!(session.token(), "new");
    assert_eq!(session.issued_at(), T0 + 2 * HOUR);
    assert_eq!(session.expires_at(), T0 + 3 * HOUR);
    assert_eq!(orchestrator.cached(&old), None);
    assert_eq!(orchestrator.cached(&new), Some(session));
    assert!(orchestrator.is_in_flight(&new));
    let by_clock = orchestrator.store(&old, "again".to_string());
    assert_eq!(orchestrator.cached(&old), Some(by_clock));
}

#[test]
fn errors_and_keys_can_be_copied() {
    let error = AuthError::ResponseUnparseable { fields: vec!["a".to_string(), "b".to_string()] };
    assert_eq!(error.clone(), error);
    let failed = AuthError::UpstreamAuthFailed { message: "m".to_string() };
    assert_eq!(failed.clone(), failed);
    assert_eq!(AuthError::Timeout.clone(), AuthError::Timeout);
    let key = AccountKey::new("U1", "S1");
    assert_eq!(key.clone(), key);
}

#[test]
fn failures_are_shown_by_their_class() {
    let refused = AuthError::UpstreamAuthFailed { message: "disabled account".to_string() };
    let drifted = AuthError::ResponseUnparseable { fields: vec!["secret_field".to_string()] };
    assert_eq!(refused.class(), FailureClass::Unauthorized);
    assert_eq!(AuthError::Timeout.class(), FailureClass::Unauthorized);
    assert_eq!(drifted.class(), FailureClass::ServerError);
    assert_eq!(FailureClass::Unauthorized.status_code(), 401);
    assert_eq!(FailureClass::ServerError.status_code(), 500);
    assert_eq!(refused.message(), "disabled account");
    assert_eq!(drifted.message(), "Token no encontrado en la respuesta");
    assert_eq!(AuthError::Timeout.message(), "Tiempo de espera agotado");
}

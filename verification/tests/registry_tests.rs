use authd_registry::auth_reqs;
use authd_registry::errors::HandlerError;
use authd_registry::params::Params;
use authd_registry::pending::{PendingReqs, SharedAuthReqs};
use authd_registry::subscribers::{SharedSubscribers, Subscribers};
use authd_registry::types::{AuthReq, NotificationSubscription, PendingAuthRequest};
use authd_registry::unsubscribe;

fn req(id: u32, app: &str) -> PendingAuthRequest {
    PendingAuthRequest {
        auth_req: AuthReq {
            req_id: id,
            app_id: format!("net.test.{}", app),
            app_name: app.to_string(),
            app_vendor: "test-vendor".to_string(),
        },
        timestamp: 1000 + id as u64,
    }
}

fn sub(handle: u64) -> NotificationSubscription {
    NotificationSubscription { delivery_handle: handle }
}

#[test]
fn auth_reqs_listing_in_insertion_order() {
    let mut reqs = PendingReqs::new();
    reqs.insert("r1".to_string(), req(1, "appa"));
    reqs.insert("r2".to_string(), req(2, "appb"));
    let handle = SharedAuthReqs::new(reqs);

    let listed = auth_reqs::process_req(&Params::Null, &handle).expect("listing should succeed");
    assert_eq!(listed.len(), 2);
    assert_eq!(listed[0].req_id, 1);
    assert_eq!(listed[0].app_name, "appa");
    assert_eq!(listed[1].req_id, 2);
    assert_eq!(listed[1].app_name, "appb");
}

#[test]
fn auth_reqs_empty_registry_lists_nothing() {
    let handle = SharedAuthReqs::new(PendingReqs::new());
    let listed = auth_reqs::process_req(&Params::Null, &handle).expect("listing should succeed");
    assert!(listed.is_empty());
}

#[test]
fn auth_reqs_rejects_non_null_params() {
    let handle = SharedAuthReqs::new(PendingReqs::new());
    for params in [
        Params::Bool(true),
        Params::Number(7),
        Params::Text("x".to_string()),
        Params::Other("Array [Null]".to_string()),
    ] {
        match auth_reqs::process_req(&params, &handle) {
            Err(HandlerError::InvalidParams(m)) => {
                assert!(m.starts_with("Unexpected param for 'auth-reqs' method: "));
            }
            other => panic!("expected InvalidParams, got {:?}", other),
        }
    }
}

#[test]
fn auth_reqs_invalid_params_message_names_value() {
    let handle = SharedAuthReqs::new(PendingReqs::new());
    match auth_reqs::process_req(&Params::Bool(true), &handle) {
        Err(HandlerError::InvalidParams(m)) => {
            assert_eq!(m, "Unexpected param for 'auth-reqs' method: Bool(true)");
        }
        other => panic!("expected InvalidParams, got {:?}", other),
    }
}

#[test]
fn auth_reqs_value_level_handler_does_not_mutate() {
    let mut reqs = PendingReqs::new();
    reqs.insert("r1".to_string(), req(1, "appa"));
    let r = auth_reqs::handle_auth_reqs(&Params::Number(3), &reqs);
    assert!(matches!(r, Err(HandlerError::InvalidParams(_))));
    assert_eq!(reqs.len(), 1);
    let listed = auth_reqs::handle_auth_reqs(&Params::Null, &reqs).unwrap();
    assert_eq!(listed.len(), 1);
    assert_eq!(listed[0].app_name, "appa");
}

#[test]
fn pending_insert_replaces_in_place() {
    let mut reqs = PendingReqs::new();
    reqs.insert("r1".to_string(), req(1, "appa"));
    reqs.insert("r2".to_string(), req(2, "appb"));
    reqs.insert("r1".to_string(), req(9, "appc"));
    assert_eq!(reqs.len(), 2);
    let listed = auth_reqs::handle_auth_reqs(&Params::Null, &reqs).unwrap();
    assert_eq!(listed[0].req_id, 9);
    assert_eq!(listed[0].app_name, "appc");
    assert_eq!(listed[1].req_id, 2);
}

#[test]
fn unsubscribe_then_repeat_reports_not_found() {
    let mut subs = Subscribers::new();
    subs.insert("http://x".to_string(), sub(1));
    let handle = SharedSubscribers::new(subs);

    let addr = Params::Text("http://x".to_string());
    let msg = unsubscribe::process_req(&addr, &handle).expect("first unsubscribe should succeed");
    assert!(msg.contains("http://x"));
    assert_eq!(
        msg,
        "Unsubscription successful. Endpoint 'http://x' will no longer receive \
         authorisation requests notifications"
    );

    match unsubscribe::process_req(&addr, &handle) {
        Err(HandlerError::NotFound(m)) => {
            assert!(m.contains("no such"));
            assert!(m.contains("http://x"));
            assert_eq!(
                m,
                "Unsubscription request ignored, no such the endpoint URL ('http://x') \
                 was found to be subscribed"
            );
        }
        other => panic!("expected NotFound, got {:?}", other),
    }
}

#[test]
fn unsubscribe_non_text_params_leave_registry_unchanged() {
    let mut subs = Subscribers::new();
    subs.insert("http://x".to_string(), sub(1));
    match unsubscribe::handle_unsubscribe(&Params::Number(42), &mut subs) {
        Err(HandlerError::InvalidParams(m)) => {
            assert_eq!(m, "Incorrect params for 'unsubscribe' method: Number(42)");
        }
        other => panic!("expected InvalidParams, got {:?}", other),
    }
    assert_eq!(subs.len(), 1);

    match unsubscribe::handle_unsubscribe(&Params::Null, &mut subs) {
        Err(HandlerError::InvalidParams(m)) => {
            assert_eq!(m, "Incorrect params for 'unsubscribe' method: Null");
        }
        other => panic!("expected InvalidParams, got {:?}", other),
    }
    assert_eq!(subs.len(), 1);
}

#[test]
fn unsubscribe_distinct_addresses_all_succeed() {
    let mut subs = Subscribers::new();
    subs.insert("http://a".to_string(), sub(1));
    subs.insert("http://b".to_string(), sub(2));
    subs.insert("http://c".to_string(), sub(3));
    subs.insert("http://keep".to_string(), sub(4));

    for addr in ["http://a", "http://b", "http://c"] {
        let r = unsubscribe::handle_unsubscribe(&Params::Text(addr.to_string()), &mut subs);
        assert!(r.is_ok(), "removing {} should succeed", addr);
    }
    assert_eq!(subs.len(), 1);

    // The untouched subscriber is still removable: no lost update.
    let r = unsubscribe::handle_unsubscribe(&Params::Text("http://keep".to_string()), &mut subs);
    assert!(r.is_ok());
    assert_eq!(subs.len(), 0);
}

#[test]
fn unsubscribe_guarded_invalid_params() {
    let handle = SharedSubscribers::new(Subscribers::new());
    match unsubscribe::process_req(&Params::Bool(false), &handle) {
        Err(HandlerError::InvalidParams(m)) => {
            assert_eq!(m, "Incorrect params for 'unsubscribe' method: Bool(false)");
        }
        other => panic!("expected InvalidParams, got {:?}", other),
    }
}

#[test]
fn handler_error_message_accessor() {
    let e = HandlerError::NotFound("gone".to_string());
    assert_eq!(e.message(), "gone");
    let e = HandlerError::InvalidParams("bad".to_string());
    assert_eq!(e.message(), "bad");
    let e = HandlerError::Internal("oops".to_string());
    assert_eq!(e.message(), "oops");
}

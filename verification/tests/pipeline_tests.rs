use authware::auth::sample::Sample;
use authware::handler;
use authware::handler::error::ApiError;
use authware::handler::login::Request;
use authware::model::config::SessionConfig;
use authware::store::memory::InMemorySessionStore;
use authware::utils::ip_extractor::Header;

fn config() -> SessionConfig {
    SessionConfig { inactivity: 30 * 60 * 1000, session_timeout: 6 * 60 * 60 * 1000 }
}

fn sample_auth() -> Sample {
    Sample::new("admin:admin;user:user").unwrap()
}

fn request(user: &str, pass: &str) -> Request {
    Request { user: Some(user.to_string()), pass: Some(pass.to_string()) }
}

#[test]
fn test_happy_login_auth() {
    let auth = sample_auth();
    let mut store = InMemorySessionStore::new();
    let cfg = config();
    let now: i64 = 1_000_000;

    let resp = handler::login::handler(&auth, &mut store, &cfg, "", request("admin", "admin"), now)
        .unwrap();
    assert_eq!(resp.session_id.len(), 172);
    assert_eq!(resp.user.name, "admin");
    assert_eq!(resp.user.department, "IT dep of admin");
    assert_eq!(resp.user.roles, vec!["USER".to_string()]);

    let user = handler::auth::handler(
        &mut store,
        &cfg,
        "",
        Some(resp.session_id.as_str()),
        None,
        now + 1,
    )
    .unwrap();
    assert_eq!(user.id, "admin");
    assert_eq!(user.name, "admin");
    assert_eq!(user.department, "IT dep of admin");
    assert_eq!(user.roles, vec!["USER".to_string()]);
}

#[test]
fn test_wrong_password() {
    let auth = sample_auth();
    let mut store = InMemorySessionStore::new();
    let cfg = config();
    let r = handler::login::handler(&auth, &mut store, &cfg, "", request("admin", "nope"), 0);
    match r {
        Err(e) => {
            assert!(matches!(e, ApiError::WrongUserPass()));
            assert_eq!(e.status_code(), 401);
        }
        Ok(_) => panic!("login must fail"),
    }
}

#[test]
fn test_missing_fields_rejected() {
    let auth = sample_auth();
    let mut store = InMemorySessionStore::new();
    let cfg = config();
    let r = handler::login::handler(
        &auth,
        &mut store,
        &cfg,
        "",
        Request { user: Some("admin".into()), pass: None },
        0,
    );
    assert!(matches!(r, Err(ApiError::WrongUserPass())));
}

#[test]
fn test_token_via_forwarded_uri() {
    let auth = sample_auth();
    let mut store = InMemorySessionStore::new();
    let cfg = config();
    let now: i64 = 1_000_000;
    let resp = handler::login::handler(&auth, &mut store, &cfg, "", request("admin", "admin"), now)
        .unwrap();

    let uri = format!("/protected?a=1&token={}", resp.session_id);
    let user =
        handler::auth::handler(&mut store, &cfg, "", None, Some(uri.as_str()), now + 1).unwrap();
    assert_eq!(user.name, "admin");
}

#[test]
fn test_auth_without_token_sources() {
    let mut store = InMemorySessionStore::new();
    let cfg = config();
    let r = handler::auth::handler(&mut store, &cfg, "", None, None, 0);
    assert!(matches!(r, Err(ApiError::NoSession())));
}

#[test]
fn test_auth_unknown_token() {
    let mut store = InMemorySessionStore::new();
    let cfg = config();
    let r = handler::auth::handler(&mut store, &cfg, "", Some("olia"), None, 0);
    assert!(matches!(r, Err(ApiError::NoSession())));
}

#[test]
fn test_ip_pinning() {
    let auth = sample_auth();
    let mut store = InMemorySessionStore::new();
    let cfg = config();
    let extractor = Header::new(-2);
    let now: i64 = 1_000_000;

    let login_ip = extractor.get(Some("2.2.2.2,1.1.1.1"));
    assert_eq!(login_ip, "2.2.2.2");
    let resp = handler::login::handler(
        &auth,
        &mut store,
        &cfg,
        login_ip.as_str(),
        request("admin", "admin"),
        now,
    )
    .unwrap();

    let same_ip = extractor.get(Some("2.2.2.2,1.1.1.1"));
    assert!(handler::auth::handler(
        &mut store,
        &cfg,
        same_ip.as_str(),
        Some(resp.session_id.as_str()),
        None,
        now + 1,
    )
    .is_ok());

    let other_ip = extractor.get(Some("9.9.9.9,1.1.1.1"));
    let r = handler::auth::handler(
        &mut store,
        &cfg,
        other_ip.as_str(),
        Some(resp.session_id.as_str()),
        None,
        now + 2,
    );
    match r {
        Err(e) => {
            assert!(matches!(e, ApiError::NoSession()));
            assert_eq!(e.status_code(), 401);
        }
        Ok(_) => panic!("foreign ip must be rejected"),
    }
}

#[test]
fn test_logout_invalidates() {
    let auth = sample_auth();
    let mut store = InMemorySessionStore::new();
    let cfg = config();
    let now: i64 = 1_000_000;
    let resp = handler::login::handler(&auth, &mut store, &cfg, "", request("admin", "admin"), now)
        .unwrap();

    handler::logout::handler(&mut store, Some(resp.session_id.as_str())).unwrap();
    let r = handler::validate::handler(
        &mut store,
        &cfg,
        "",
        Some(resp.session_id.as_str()),
        now + 1,
    );
    assert!(matches!(r, Err(ApiError::NoSession())));
}

#[test]
fn test_logout_requires_token() {
    let mut store = InMemorySessionStore::new();
    assert!(matches!(handler::logout::handler(&mut store, None), Err(ApiError::NoSession())));
    assert!(matches!(
        handler::logout::handler(&mut store, Some("ghost")),
        Err(ApiError::NoSession())
    ));
}

#[test]
fn test_validate_and_keep_alive() {
    let auth = sample_auth();
    let mut store = InMemorySessionStore::new();
    let cfg = config();
    let now: i64 = 1_000_000;
    let resp = handler::login::handler(&auth, &mut store, &cfg, "", request("admin", "admin"), now)
        .unwrap();
    let token = resp.session_id.as_str();

    assert!(handler::validate::handler(&mut store, &cfg, "", Some(token), now + 1).is_ok());
    assert!(matches!(
        handler::validate::handler(&mut store, &cfg, "", None, now + 1),
        Err(ApiError::NoSession())
    ));

    // past the inactivity window validation fails, but a keep-alive done in
    // time resets the clock
    let late = now + cfg.inactivity + 1;
    let r = handler::validate::handler(&mut store, &cfg, "", Some(token), late);
    assert!(matches!(r, Err(ApiError::ExpiredSession())));

    assert!(handler::keep_alive::handler(&mut store, &cfg, "", Some(token), now + 1000).is_ok());
    assert!(handler::validate::handler(&mut store, &cfg, "", Some(token), now + 1000
        + cfg.inactivity).is_ok());
}

#[test]
fn test_session_lifetime_expires() {
    let auth = sample_auth();
    let mut store = InMemorySessionStore::new();
    let cfg = SessionConfig { inactivity: i64::MAX / 4, session_timeout: 1000 };
    let now: i64 = 1_000_000;
    let resp = handler::login::handler(&auth, &mut store, &cfg, "", request("admin", "admin"), now)
        .unwrap();
    let token = resp.session_id.as_str();

    assert!(handler::validate::handler(&mut store, &cfg, "", Some(token), now + 999).is_ok());
    // at the expiry instant the sweep has already collected the record
    let r = handler::validate::handler(&mut store, &cfg, "", Some(token), now + 1000);
    assert!(matches!(r, Err(ApiError::NoSession())));
}

#[test]
fn test_generate_session_is_opaque() {
    let a = handler::login::generate_session();
    let b = handler::login::generate_session();
    assert_eq!(a.len(), 172);
    assert_eq!(b.len(), 172);
    assert_ne!(a, b);
}

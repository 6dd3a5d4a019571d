use authware::handler::error::ApiError;
use authware::model::auth::User;
use authware::model::data::SessionData;
use authware::utils::secret_str::SecretString;

fn session_data() -> SessionData {
    SessionData {
        user: User {
            id: "admin".to_string(),
            name: "admin".to_string(),
            department: "IT".to_string(),
            roles: vec!["USER".to_string()],
        },
        ip: "2.2.2.2".to_string(),
        valid_till: 1000,
        last_access: 500,
    }
}

#[test]
fn test_ip() {
    let cases: [(&str, bool); 3] = [("2.2.2.2", true), ("2.2.2.222", false), ("", false)];
    for (ip, ok) in cases {
        let to = session_data();
        let res = to.check_ip(ip);
        assert_eq!(ok, res.is_ok());
    }
}

#[test]
fn test_check_inactivity() {
    let cases: [(i64, i64, bool); 3] = [(800, 299, false), (800, 301, true), (800, 100, false)];
    for (now, dur, ok) in cases {
        let to = session_data();
        let res = to.check_inactivity(now, dur);
        assert_eq!(ok, res.is_ok());
    }
}

#[test]
fn test_check_ip_own_ip_always_passes() {
    let to = session_data();
    assert!(to.check_ip(&to.ip.clone()).is_ok());
}

#[test]
fn test_check_expired_boundary() {
    let to = session_data();
    assert!(to.check_expired(to.valid_till - 1).is_ok());
    assert!(to.check_expired(to.valid_till).is_ok());
    assert!(matches!(
        to.check_expired(to.valid_till + 1),
        Err(ApiError::ExpiredSession())
    ));
}

#[test]
fn test_check_inactivity_boundary() {
    let to = session_data();
    let d: i64 = 250;
    assert!(to.check_inactivity(to.last_access + d - 1, d).is_ok());
    assert!(to.check_inactivity(to.last_access + d, d).is_ok());
    assert!(matches!(
        to.check_inactivity(to.last_access + d + 1, d),
        Err(ApiError::ExpiredSession())
    ));
}

#[test]
fn test_api_error_statuses() {
    assert_eq!(ApiError::BadRequest("b".into(), "d".into()).status_code(), 400);
    assert_eq!(ApiError::Server("s".into()).status_code(), 500);
    assert_eq!(ApiError::Other("o".into()).status_code(), 500);
    assert_eq!(ApiError::WrongUserPass().status_code(), 401);
    assert_eq!(ApiError::ExpiredPass().status_code(), 401);
    assert_eq!(ApiError::ExpiredSession().status_code(), 401);
    assert_eq!(ApiError::NoSession().status_code(), 401);
    assert_eq!(ApiError::NoAccess().status_code(), 401);
}

#[test]
fn test_api_error_messages() {
    assert_eq!(ApiError::BadRequest("bad body".into(), "d".into()).message(), "bad body");
    assert_eq!(ApiError::Server("s".into()).message(), "Internal Server Error");
    assert_eq!(ApiError::Other("o".into()).message(), "Internal Server Error");
    assert_eq!(ApiError::WrongUserPass().message(), "Wrong user or password");
    assert_eq!(ApiError::ExpiredPass().message(), "Password expired");
    assert_eq!(ApiError::ExpiredSession().message(), "Session expired");
    assert_eq!(ApiError::NoSession().message(), "No session");
    assert_eq!(ApiError::NoAccess().message(), "No access");
}

#[test]
fn test_api_error_from_auth() {
    assert!(matches!(ApiError::from(authware::model::auth::Error::WrongUserPass()), ApiError::WrongUserPass()));
    assert!(matches!(ApiError::from(authware::model::auth::Error::ExpiredPass()), ApiError::ExpiredPass()));
    assert!(matches!(ApiError::from(authware::model::auth::Error::NoAccess()), ApiError::NoAccess()));
    match ApiError::from(authware::model::auth::Error::OtherAuth("Code 8".into())) {
        ApiError::Other(m) => assert_eq!(m, "Code 8"),
        _ => panic!("wrong mapping"),
    }
    match ApiError::from(authware::model::auth::Error::ServiceError("down".into())) {
        ApiError::Other(m) => assert_eq!(m, "down"),
        _ => panic!("wrong mapping"),
    }
}

#[test]
fn test_api_error_from_store() {
    assert!(matches!(ApiError::from(authware::model::store::Error::NoSession()), ApiError::NoSession()));
    match ApiError::from(authware::model::store::Error::Other("pool".into())) {
        ApiError::Other(m) => assert_eq!(m, "pool"),
        _ => panic!("wrong mapping"),
    }
}

#[test]
fn test_secret_string() {
    let x: SecretString = "abc123".into();
    assert_eq!(x.reveal_secret(), "abc123");
    let y: SecretString = String::from("abc123").into();
    assert!(x == y);
    assert_eq!(x.placeholder(), "***");
}

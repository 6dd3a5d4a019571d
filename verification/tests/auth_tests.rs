use authware::auth::admin3ws::{body_is_xml, map_err_codes, process_status_body, resolve_login,
    Auth, UserDetails};
use authware::auth::combined::Auths;
use authware::auth::sample::{parse_users, Sample};
use authware::model::auth::Error;
use authware::AuthService;

fn entry_tuple(e: &authware::auth::sample::UserEntry) -> (String, String, String, Vec<String>) {
    (e.name.clone(), e.pass.clone(), e.department.clone(), e.roles.clone())
}

#[test]
fn test_parse_users() {
    let table = parse_users("").unwrap();
    assert!(table.is_empty());

    let table = parse_users("olia:oo").unwrap();
    assert_eq!(table.len(), 1);
    assert_eq!(
        entry_tuple(&table[0]),
        (
            "olia".to_string(),
            "oo".to_string(),
            "IT dep of olia".to_string(),
            vec!["USER".to_string()]
        )
    );

    let table = parse_users("olia:oo;IT:HR").unwrap();
    assert_eq!(table.len(), 2);
    assert_eq!(
        entry_tuple(&table[1]),
        (
            "IT".to_string(),
            "HR".to_string(),
            "IT dep of IT".to_string(),
            vec!["USER".to_string()]
        )
    );

    let table = parse_users("olia:oo:dep:r1,r2;IT:HR:dep2:r1,r4").unwrap();
    assert_eq!(
        entry_tuple(&table[0]),
        (
            "olia".to_string(),
            "oo".to_string(),
            "dep".to_string(),
            vec!["r1".to_string(), "r2".to_string()]
        )
    );
    assert_eq!(
        entry_tuple(&table[1]),
        (
            "IT".to_string(),
            "HR".to_string(),
            "dep2".to_string(),
            vec!["r1".to_string(), "r4".to_string()]
        )
    );
}

#[test]
fn test_parse_users_failure() {
    for input in ["olia:", ":oo", "olia"] {
        assert!(parse_users(input).is_err());
    }
}

#[test]
fn test_parse_users_roles_trimmed() {
    let table = parse_users("u:p:d: r1 , ,r2,").unwrap();
    assert_eq!(table[0].roles, vec!["r1".to_string(), "r2".to_string()]);
}

#[test]
fn test_parse_users_duplicate_last_wins() {
    let table = parse_users("a:1;b:2;a:3").unwrap();
    assert_eq!(table.len(), 2);
    assert_eq!(table[0].name, "a");
    assert_eq!(table[0].pass, "3");
    assert_eq!(table[1].name, "b");
}

#[test]
fn test_sample_login() {
    let sm = Sample::new("admin:admin;user:user").unwrap();
    let user = sm.login("admin", &"admin".into()).unwrap();
    assert_eq!(user.id, "admin");
    assert_eq!(user.name, "admin");
    assert_eq!(user.department, "IT dep of admin");
    assert_eq!(user.roles, vec!["USER".to_string()]);
    assert!(matches!(sm.login("admin", &"nope".into()), Err(Error::WrongUserPass())));
    assert!(matches!(sm.login("ghost", &"admin".into()), Err(Error::WrongUserPass())));
}

#[test]
fn test_combined_first_ok_wins() {
    let first = Sample::new("a:1").unwrap();
    let second = Sample::new("b:2").unwrap();
    let chain = Auths::new(vec![first, second]).unwrap();
    assert_eq!(chain.login("a", &"1".into()).unwrap().name, "a");
    assert_eq!(chain.login("b", &"2".into()).unwrap().name, "b");
}

#[test]
fn test_combined_all_fail_last_error() {
    let first = Sample::new("a:1").unwrap();
    let second = Sample::new("b:2").unwrap();
    let chain = Auths::new(vec![first, second]).unwrap();
    assert!(matches!(chain.login("c", &"3".into()), Err(Error::WrongUserPass())));
}

#[test]
fn test_combined_empty_rejected() {
    let none: Vec<Sample> = Vec::new();
    assert!(Auths::new(none).is_err());
}

#[test]
fn test_auth_new_rejects_empty_params() {
    assert!(Auth::new("", "u", "p".into(), "app").is_err());
    assert!(Auth::new("http://x", "", "p".into(), "app").is_err());
    assert!(Auth::new("http://x", "u", "".into(), "app").is_err());
    assert!(Auth::new("http://x", "u", "p".into(), "").is_err());
    assert!(Auth::new("http://x", "u", "p".into(), "app").is_ok());
}

#[test]
fn test_make_urls() {
    let auth = Auth::new("http://x", "u", "p".into(), "my app").unwrap();
    assert_eq!(
        auth.make_details_url("user name", &"pa=ss".into()),
        "http://x/authenticate_details/my%20app/user%20name/pa%3Dss"
    );
    assert_eq!(auth.make_roles_url("user name"), "http://x/get_roles/my%20app/user%20name");
}

#[test]
fn test_body_is_xml() {
    assert!(body_is_xml("<user/>"));
    assert!(!body_is_xml("12"));
    assert!(!body_is_xml(""));
}

#[test]
fn test_map_err_codes() {
    assert!(matches!(map_err_codes(1), Error::WrongUserPass()));
    assert!(matches!(map_err_codes(4), Error::WrongUserPass()));
    assert!(matches!(map_err_codes(5), Error::WrongUserPass()));
    assert!(matches!(map_err_codes(2), Error::ExpiredPass()));
    assert!(matches!(map_err_codes(3), Error::ExpiredPass()));
    match map_err_codes(8) {
        Error::OtherAuth(m) => assert_eq!(m, "Code 8"),
        _ => panic!("wrong kind"),
    }
    match map_err_codes(12) {
        Error::ServiceError(m) => assert_eq!(m, "Auth Service error: 12"),
        _ => panic!("wrong kind"),
    }
}

#[test]
fn test_process_status_body() {
    assert!(matches!(process_status_body("1"), Error::WrongUserPass()));
    assert!(matches!(process_status_body("2"), Error::ExpiredPass()));
    match process_status_body("8") {
        Error::OtherAuth(m) => assert_eq!(m, "Code 8"),
        _ => panic!("wrong kind"),
    }
    match process_status_body("aaa") {
        Error::ServiceError(m) => assert_eq!(m, "can't parse to int aaa"),
        _ => panic!("wrong kind"),
    }
}

#[test]
fn test_resolve_login() {
    let details = UserDetails {
        first_name: "oooo".to_string(),
        last_name: "aaaa".to_string(),
        organization_unit: Some("dep".to_string()),
    };
    let user = resolve_login("dev", details, vec!["R1".to_string()]).unwrap();
    assert_eq!(user.id, "dev");
    assert_eq!(user.name, "oooo aaaa");
    assert_eq!(user.department, "dep");
    assert_eq!(user.roles, vec!["R1".to_string()]);

    let details = UserDetails {
        first_name: "oooo".to_string(),
        last_name: "aaaa".to_string(),
        organization_unit: None,
    };
    let empty: Vec<String> = Vec::new();
    assert!(matches!(resolve_login("dev", details, empty), Err(Error::NoAccess())));
}

#[test]
fn test_sample_empty_table_always_wrong_pass() {
    let sm = Sample::new("").unwrap();
    assert!(matches!(sm.login("anyone", &"any".into()), Err(Error::WrongUserPass())));
}

#[test]
fn test_error_describe() {
    assert_eq!(Error::WrongUserPass().describe(), "Wrong password");
    assert_eq!(Error::ExpiredPass().describe(), "Expired password");
    assert_eq!(Error::NoAccess().describe(), "No access");
    assert_eq!(Error::OtherAuth("Code 6".into()).describe(), "Other Auth error");
    assert_eq!(Error::ServiceError("x".into()).describe(), "Auth Service error");
}

#[test]
fn test_parse_render_round_trip() {
    // rendering every parsed entry back as user:pass:dept:roles and
    // re-parsing rebuilds the same table
    let table = parse_users("olia:oo:dep:r1,r2;IT:HR").unwrap();
    let rendered = "olia:oo:dep:r1,r2;IT:HR:IT dep of IT:USER";
    let reparsed = parse_users(rendered).unwrap();
    assert_eq!(table.len(), reparsed.len());
    for (a, b) in table.iter().zip(reparsed.iter()) {
        assert_eq!(entry_tuple(a), entry_tuple(b));
    }
}

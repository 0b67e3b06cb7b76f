use topo_synth::config::{
    Credentials, Login, MikrotikCredentials, MissingCredentials, NamedCredentials, ScalarDuration,
    Settings,
};
use topo_synth::freshness::{on_read, Refresh};
use topo_synth::ip::{IpAddr, Ipv4Addr, Ipv6Addr};

fn settings() -> Settings {
    Settings {
        auth_client_id: "client".to_string(),
        auth_issuer: "https://sso.example.org/realms/net".to_string(),
        auth_token_url: None,
        auth_url: None,
        auth_users: vec!["alice".to_string()],
        server_port: None,
        server_mgmt_port: None,
        server_bind_address: None,
        netbox_url: "https://inventory.example.org/graphql/".to_string(),
        netbox_token: "token".to_string(),
        mikrotik_credentials: vec![
            NamedCredentials {
                name: "core".to_string(),
                credentials: MikrotikCredentials {
                    user: Some("operator".to_string()),
                    password: Some("hidden".to_string()),
                },
            },
            NamedCredentials {
                name: "edge".to_string(),
                credentials: MikrotikCredentials { user: None, password: None },
            },
        ],
    }
}

#[test]
fn settings_defaults() {
    let s = settings();
    assert_eq!(s.auth_client_id(), "client");
    assert_eq!(s.auth_issuer(), "https://sso.example.org/realms/net");
    assert_eq!(
        s.auth_token_url(),
        "https://sso.example.org/realms/net/protocol/openid-connect/token"
    );
    assert_eq!(s.auth_url(), "https://sso.example.org/realms/net/protocol/openid-connect/auth");
    assert_eq!(s.server_port(), 8080);
    assert_eq!(s.server_mgmt_port(), 9080);
    assert_eq!(s.server_bind_address(), IpAddr::V6(Ipv6Addr(0)));
}

#[test]
fn settings_as_set() {
    let mut s = settings();
    s.auth_token_url = Some("https://t.example.org".to_string());
    s.auth_url = Some("https://a.example.org".to_string());
    s.server_port = Some(65000);
    s.server_mgmt_port = Some(81);
    s.server_bind_address = Some(IpAddr::V4(Ipv4Addr::new(127, 0, 0, 1)));
    assert_eq!(s.auth_token_url(), "https://t.example.org");
    assert_eq!(s.auth_url(), "https://a.example.org");
    assert_eq!(s.server_port(), 65000);
    assert_eq!(s.server_mgmt_port(), 81);
    assert_eq!(s.server_bind_address(), IpAddr::V4(Ipv4Addr(0x7f00_0001)));
}

#[test]
fn management_port_follows_the_port() {
    let mut s = settings();
    s.server_port = Some(3000);
    assert_eq!(s.server_mgmt_port(), 4000);
}

#[test]
fn credentials_by_name() {
    let s = settings();
    let core = s.credentials("core").expect("credentials of the name");
    assert_eq!(core.user(), "operator");
    assert_eq!(core.password(), Some("hidden"));
    let edge = s.credentials("edge").expect("credentials of the name");
    assert_eq!(edge.user(), "admin");
    assert_eq!(edge.password(), None);
    assert!(s.credentials("cor").is_none());
    assert!(s.credentials("").is_none());
}

#[test]
fn select_prefers_the_given_name() {
    assert_eq!(
        Credentials::select(
            Some("core".to_string()),
            Some((Some("u".to_string()), None)),
            Some("edge")
        ),
        Some(Credentials::Named("core".to_string()))
    );
    assert_eq!(
        Credentials::select(None, Some((Some("u".to_string()), None)), Some("edge")),
        Some(Credentials::Adhoc { username: Some("u".to_string()), password: None })
    );
    assert_eq!(
        Credentials::select(None, None, Some("edge")),
        Some(Credentials::Named("edge".to_string()))
    );
    assert_eq!(Credentials::select(None, None, None), None);
}

#[test]
fn login_of_named_credentials() {
    let s = settings();
    assert_eq!(
        Credentials::Named("core".to_string()).login(&s),
        Ok(Login { user: "operator".to_string(), password: Some("hidden".to_string()) })
    );
    assert_eq!(
        Credentials::Named("edge".to_string()).login(&s),
        Ok(Login { user: "admin".to_string(), password: None })
    );
    assert_eq!(Credentials::Named("lab".to_string()).login(&s), Err(MissingCredentials));
}

#[test]
fn login_of_given_credentials() {
    let s = settings();
    assert_eq!(
        Credentials::Adhoc { username: None, password: Some("pw".to_string()) }.login(&s),
        Ok(Login { user: "admin".to_string(), password: Some("pw".to_string()) })
    );
    assert_eq!(
        Credentials::Adhoc { username: Some("root".to_string()), password: None }.login(&s),
        Ok(Login { user: "root".to_string(), password: None })
    );
}

#[test]
fn duration_in_nanoseconds() {
    assert_eq!(ScalarDuration::from_nanos(1_500).as_nanos(), 1_500);
    let d = std::time::Duration::from_millis(2);
    assert_eq!(ScalarDuration::from_duration_nanos(d.as_nanos()), ScalarDuration(2_000_000));
    assert_eq!(ScalarDuration::from_duration_nanos((1u128 << 64) + 5), ScalarDuration(5));
}

#[test]
fn a_snapshot_lives_ten_seconds() {
    assert_eq!(on_read(None), Refresh::Fetch);
    assert_eq!(on_read(Some(0)), Refresh::Keep);
    assert_eq!(on_read(Some(std::time::Duration::from_secs(10).as_nanos())), Refresh::Keep);
    assert_eq!(on_read(Some(std::time::Duration::from_secs(10).as_nanos() + 1)), Refresh::Fetch);
    assert_eq!(on_read(Some(u128::MAX)), Refresh::Fetch);
}

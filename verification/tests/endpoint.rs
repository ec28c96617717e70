use kv_facade::endpoint::{api_prefix, route, server_url, Endpoint, Method, PORT};

#[test]
fn service_listens_on_port_80() {
    assert_eq!(PORT, 80);
}

#[test]
fn endpoints_stand_under_the_api_prefix() {
    assert_eq!(api_prefix(), "/api");
}

#[test]
fn published_url_names_host_port_and_prefix() {
    assert_eq!(server_url(PORT), "http://localhost:80/api");
}

#[test]
fn published_url_writes_the_port_in_decimal() {
    assert_eq!(server_url(0), "http://localhost:0/api");
    assert_eq!(server_url(7), "http://localhost:7/api");
    assert_eq!(server_url(10), "http://localhost:10/api");
    assert_eq!(server_url(8080), "http://localhost:8080/api");
    assert_eq!(server_url(10000), "http://localhost:10000/api");
    assert_eq!(server_url(12345), "http://localhost:12345/api");
    assert_eq!(server_url(65535), "http://localhost:65535/api");
}

#[test]
fn published_url_agrees_with_the_port_as_formatted() {
    let mut port: u16 = 0;
    loop {
        assert_eq!(server_url(port), format!("http://localhost:{}/api", port));
        if port > 65535 - 257 {
            break;
        }
        port += 257;
    }
}

#[test]
fn endpoints_have_their_methods_and_paths() {
    assert_eq!(Endpoint::Ping.method(), Method::Get);
    assert_eq!(Endpoint::Ping.path(), "/ping");
    assert_eq!(Endpoint::Ping.full_path(), "/api/ping");
    assert_eq!(Endpoint::GetValue.method(), Method::Get);
    assert_eq!(Endpoint::GetValue.path(), "/get");
    assert_eq!(Endpoint::GetValue.full_path(), "/api/get");
    assert_eq!(Endpoint::SetValue.method(), Method::Put);
    assert_eq!(Endpoint::SetValue.path(), "/set");
    assert_eq!(Endpoint::SetValue.full_path(), "/api/set");
}

#[test]
fn requests_are_routed_to_their_endpoints() {
    assert_eq!(route(Method::Get, "/api/ping"), Some(Endpoint::Ping));
    assert_eq!(route(Method::Get, "/api/get"), Some(Endpoint::GetValue));
    assert_eq!(route(Method::Put, "/api/set"), Some(Endpoint::SetValue));
}

#[test]
fn each_endpoint_is_routed_to_itself() {
    for endpoint in [Endpoint::Ping, Endpoint::GetValue, Endpoint::SetValue] {
        assert_eq!(route(endpoint.method(), &endpoint.full_path()), Some(endpoint));
    }
}

#[test]
fn other_requests_are_routed_nowhere() {
    assert_eq!(route(Method::Put, "/api/ping"), None);
    assert_eq!(route(Method::Put, "/api/get"), None);
    assert_eq!(route(Method::Get, "/api/set"), None);
    assert_eq!(route(Method::Get, "/ping"), None);
    assert_eq!(route(Method::Get, "/api"), None);
    assert_eq!(route(Method::Get, "/api/"), None);
    assert_eq!(route(Method::Get, "/api/ping/"), None);
    assert_eq!(route(Method::Get, "/api/Ping"), None);
    assert_eq!(route(Method::Get, "/api/get?key=a"), None);
    assert_eq!(route(Method::Get, ""), None);
}

#[test]
fn endpoints_take_their_query_parameters() {
    assert_eq!(Endpoint::Ping.parameters(), Vec::<&str>::new());
    assert_eq!(Endpoint::GetValue.parameters(), vec!["key"]);
    assert_eq!(Endpoint::SetValue.parameters(), vec!["key", "value"]);
}

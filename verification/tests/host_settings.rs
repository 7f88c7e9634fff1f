use openplay::host::settings::{HostLayer, ServerConfig};

#[test]
fn host_defaults() {
    let c = ServerConfig::default();
    assert_eq!(c.port, 3000);
    assert_eq!(c.host, "0.0.0.0");
    assert_eq!(c.app, "doudizhu");
    assert_eq!(c.room_id, "room-1");
    assert_eq!(c.title, "OpenPlay Room");
    assert_eq!(c.description.as_deref(), Some("A default OpenPlay room"));
    assert_eq!(c.owner_id, "system");
    assert_eq!(c.owner_name, "System");
    assert_eq!(c.endpoint, None);
}

#[test]
fn host_settings_command_line_then_environment_then_file() {
    let mut cli = HostLayer::nothing();
    cli.port = Some(8080);
    cli.title = Some("cli title".to_string());
    let mut env = HostLayer::nothing();
    env.port = Some(9090);
    env.host = Some("127.0.0.1".to_string());
    env.title = Some("env title".to_string());
    let mut file = HostLayer::nothing();
    file.host = Some("10.0.0.1".to_string());
    file.room_id = Some("from-file".to_string());
    file.description = Some("file room".to_string());
    let c = ServerConfig::load(&cli, &env, &file);
    assert_eq!(c.port, 8080);
    assert_eq!(c.title, "cli title");
    assert_eq!(c.host, "127.0.0.1");
    assert_eq!(c.room_id, "from-file");
    assert_eq!(c.description.as_deref(), Some("file room"));
    assert_eq!(c.app, "doudizhu");
    assert_eq!(c.owner_name, "System");
    assert_eq!(c.endpoint, None);
    let none = HostLayer::nothing();
    let d = ServerConfig::load(&none, &none, &none);
    assert_eq!(d.port, 3000);
    assert_eq!(d.description.as_deref(), Some("A default OpenPlay room"));
}

#[test]
fn public_endpoint_is_derived_when_not_given() {
    let mut c = ServerConfig::default();
    assert_eq!(c.public_endpoint(), "http://localhost:3000/room");
    c.host = "::".to_string();
    c.port = 8080;
    assert_eq!(c.public_endpoint(), "http://localhost:8080/room");
    c.host = "play.example.org".to_string();
    assert_eq!(c.public_endpoint(), "http://play.example.org:8080/room");
    assert_eq!(c.listen_address(), "play.example.org:8080");
    c.endpoint = Some("https://rooms.example.org/r1".to_string());
    assert_eq!(c.public_endpoint(), "https://rooms.example.org/r1");
}

use tango_signaling_server::announcements::{
    announcement, broadcast_loop, broadcast_report, broadcast_request, user_agent, BroadcastAction,
    BroadcastPhase, BroadcastReport, BROADCAST_INTERVAL_SECS, BROADCAST_URL,
};
use tango_signaling_server::config::{Config, Environment};

fn config(broadcast_server: &str) -> Config {
    Config::from_env(Environment {
        server_host: None,
        server_port: None,
        turn_addr: None,
        turn_user: None,
        turn_credential: None,
        turn_secret: None,
        turn_credential_ttl: None,
        debug: None,
        use_static_turn_credential: None,
        log_level: None,
        broadcast_server: Some(broadcast_server.to_string()),
        server_name: Some("name".to_string()),
        server_description: Some("description".to_string()),
        server_country_code_alpha2: Some("JP".to_string()),
        endpoint_address: Some("address".to_string()),
        min_protocol_version: None,
        max_protocol_version: None,
    })
}

#[test]
fn a_disabled_server_is_not_announced() {
    let (_, action) = broadcast_loop(&config("false"), BroadcastPhase::Start);
    assert_eq!(action, BroadcastAction::Stop);
}

#[test]
fn an_enabled_server_is_announced_at_once_and_at_every_later_tick() {
    let c = config("true");
    let mut phase = BroadcastPhase::Start;
    let mut actions = Vec::new();
    for _ in 0..9 {
        let (next, action) = broadcast_loop(&c, phase);
        phase = next;
        actions.push(action);
    }
    assert_eq!(
        actions,
        vec![
            BroadcastAction::Post,
            BroadcastAction::AwaitTick,
            BroadcastAction::AwaitTick,
            BroadcastAction::Post,
            BroadcastAction::AwaitTick,
            BroadcastAction::Post,
            BroadcastAction::AwaitTick,
            BroadcastAction::Post,
            BroadcastAction::AwaitTick,
        ]
    );
    assert_eq!(BROADCAST_INTERVAL_SECS, 600);
}

#[test]
fn the_announcement_describes_the_server() {
    let c = config("true");
    let agent = user_agent("1.2.3");
    assert_eq!(agent, "trilld/1.2.3");
    let request = announcement(&c, &agent);
    assert_eq!(request.url, BROADCAST_URL);
    assert_eq!(request.url, "https://api.example.com/v1/ServerBroadcast");
    assert_eq!(request.user_agent, "trilld/1.2.3");
    assert_eq!(request.payload.server_name, "name");
    assert_eq!(request.payload.server_description, "description");
    assert_eq!(request.payload.country, "JP");
    assert_eq!(request.payload.address, "address");
}

#[test]
fn an_announcement_goes_where_it_is_sent() {
    let c = config("true");
    let request = broadcast_request(&c, "http://u/b", "trilld/1");
    assert_eq!(request.url, "http://u/b");
    assert_eq!(request.user_agent, "trilld/1");
    assert_eq!(request.payload.server_name, "name");
}

#[test]
fn an_announcement_holds_no_secret() {
    let c = config("true");
    let mut secretive = c.clone();
    secretive.turn_secret = Some("secret".to_string());
    secretive.turn_credential = Some("credential".to_string());
    secretive.turn_user = Some("user".to_string());
    secretive.server_host = "host".to_string();
    assert_eq!(
        format!("{:?}", announcement(&c, "a")),
        format!("{:?}", announcement(&secretive, "a"))
    );
}

#[test]
fn responses_are_told_apart_by_status() {
    for status in [200, 204, 299] {
        assert_eq!(
            broadcast_report(Ok(status)),
            BroadcastReport::Accepted(status)
        );
    }
    for status in [100, 199, 300, 404, 500] {
        assert_eq!(
            broadcast_report(Ok(status)),
            BroadcastReport::Refused(status)
        );
    }
    assert_eq!(
        broadcast_report(Err("no route".to_string())),
        BroadcastReport::Failed("no route".to_string())
    );
}

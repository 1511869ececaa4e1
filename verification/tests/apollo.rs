use windowcast::apollo::{decimal_u16, games_from_app_list, serverinfo_url, AppXml, ServerInfo};
use windowcast::protocol::{GameEntry, GameId};

fn info(pair_status: u8) -> ServerInfo {
    ServerInfo {
        status_code: 200,
        hostname: Some("MyPC".to_string()),
        appversion: "7.1.431.0".to_string(),
        pair_status,
        https_port: 47984,
    }
}

#[test]
fn pair_status_one_means_paired() {
    assert!(info(1).is_paired());
    assert!(!info(0).is_paired());
    assert!(!info(2).is_paired());
}

#[test]
fn app_list_maps_to_games_in_order() {
    let games = games_from_app_list(vec![
        AppXml { title: "Big Picture".to_string(), id: 1 },
        AppXml { title: "Half-Life 3".to_string(), id: 2 },
    ]);
    assert_eq!(
        games,
        vec![
            GameEntry { id: GameId(1), name: "Big Picture".into(), artwork_uri: None },
            GameEntry { id: GameId(2), name: "Half-Life 3".into(), artwork_uri: None },
        ]
    );
    assert!(games_from_app_list(Vec::new()).is_empty());
}

#[test]
fn serverinfo_url_is_plain_http() {
    assert_eq!(serverinfo_url("127.0.0.1", 47989), "http://127.0.0.1:47989/serverinfo");
    assert_eq!(serverinfo_url("host", 0), "http://host:0/serverinfo");
    assert_eq!(decimal_u16(65535), "65535");
    assert_eq!(decimal_u16(10), "10");
}

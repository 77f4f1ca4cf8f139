use wrpl::decode::humanize_victory_or_loss;
use wrpl::results::{parse_replay_results_json, results_block_start, ResultsError};

const DOC: &str = r#"{
  "status": "fail",
  "timePlayed": 578.3303,
  "author": "[WTPU3] kiTmalZ",
  "authorUserId": "176625161",
  "player": [
    {"userId": "11", "team": 1, "kills": 3, "autoSquad": true, "squadId": 5, "missileEvades": -2},
    {"userId": "99", "kills": 50},
    "not an object",
    {"userId": "22", "score": 4294967297, "groundKills": 7}
  ],
  "uiScriptsData": {
    "playersInfo": {
      "b": {"id": 22, "name": "Bob", "platform": "ps4",
            "crafts": {"z": "t-34", "a": "is-2", "n": 5}},
      "a": {"id": 11, "name": "Ann", "clanId": "7", "squadronTag": "[X]",
            "platform": "win64", "wait_time": 1.5, "crafts": {"0": "f-16"}}
    }
  }
}"#;

#[test]
fn results_document() {
    let r = parse_replay_results_json(DOC).unwrap();
    assert_eq!(r.status, "fail");
    assert_eq!(r.author, "[WTPU3] kiTmalZ");
    assert_eq!(r.time_played.parse::<f64>().unwrap(), 578.3303_f64);
    assert_eq!(r.author_user_id, 176625161.to_string());
    assert_eq!(r.players.len(), 2);

    let ann = &r.players[0];
    assert_eq!(ann.player_info.user_id, "11");
    assert_eq!(ann.player_info.username, "Ann");
    assert_eq!(ann.player_info.squadron_id, "7");
    assert_eq!(ann.player_info.squadron_tag, "[X]");
    assert_eq!(ann.player_info.platform, "win64");
    assert_eq!(ann.replay_data.team, 1);
    assert_eq!(ann.replay_data.kills, 3);
    assert_eq!(ann.replay_data.squad, 5);
    assert!(ann.replay_data.auto_squad);
    assert_eq!(ann.replay_data.missile_evades, -2);
    assert_eq!(ann.replay_data.deaths, 0);
    assert_eq!(ann.replay_data.wait_time, "1.5");
    assert_eq!(ann.replay_data.lineup, vec!["f-16".to_string()]);

    let bob = &r.players[1];
    assert_eq!(bob.player_info.username, "Bob");
    assert_eq!(bob.player_info.squadron_id, "");
    assert_eq!(bob.replay_data.score, 1);
    assert_eq!(bob.replay_data.ground_kills, 7);
    assert!(!bob.replay_data.auto_squad);
    assert_eq!(bob.replay_data.wait_time, "0");
    assert_eq!(bob.replay_data.lineup, vec!["t-34".to_string(), "is-2".to_string()]);
}

#[test]
fn results_defaults() {
    let r = parse_replay_results_json("{}").unwrap();
    assert_eq!(r.status, "unknown");
    assert_eq!(r.time_played, "0");
    assert_eq!(r.author_user_id, "-1");
    assert_eq!(r.author, "server");
    assert!(r.players.is_empty());

    let r = parse_replay_results_json(r#"{"timePlayed": 12, "player": [{"userId": "1"}]}"#).unwrap();
    assert_eq!(r.time_played, "12");
    assert!(r.players.is_empty());
}

#[test]
fn results_user_id_forms() {
    // "+5" reads as 5; an id-less entry matches a user id that is no number
    let doc = r#"{"player": [{"userId": "+5"}, {"userId": "x"}],
                 "uiScriptsData": {"playersInfo": {"p": {"id": 5, "name": "Five"},
                                                   "q": {"name": "NoId"}}}}"#;
    let r = parse_replay_results_json(doc).unwrap();
    assert_eq!(r.players.len(), 2);
    assert_eq!(r.players[0].player_info.username, "Five");
    assert_eq!(r.players[0].player_info.user_id, "+5");
    assert_eq!(r.players[1].player_info.username, "NoId");
}

#[test]
fn results_errors() {
    assert_eq!(parse_replay_results_json("not json").err(), Some(ResultsError::NotJson));
    assert_eq!(parse_replay_results_json("[1, 2]").err(), Some(ResultsError::NotAnObject));
    assert_eq!(parse_replay_results_json("\"s\"").err(), Some(ResultsError::NotAnObject));
}

#[test]
fn results_block_offsets() {
    let data = [0u8; 10];
    assert_eq!(results_block_start(&data, 0), None);
    assert_eq!(results_block_start(&data, 10), None);
    assert_eq!(results_block_start(&data, 11), None);
    assert_eq!(results_block_start(&data, 9), Some(9));
    assert_eq!(results_block_start(&data, 1), Some(1));
}

#[test]
fn status_for_people() {
    assert_eq!(humanize_victory_or_loss("fail"), "Victory");
    assert_eq!(humanize_victory_or_loss("success"), "Defeat");
    assert_eq!(humanize_victory_or_loss("left"), "Draw");
    assert_eq!(humanize_victory_or_loss("won"), "Unknown");
}

//! The end-of-battle results block: locating it, and mapping its decoded JSON
//! to player records.
use vstd::prelude::*;

use crate::json::{
    as_bool, as_i64, as_number_text, as_str, as_u64, bool_member, i32_member, member,
    member_of, number_text_member, parse_json, json_document, str_member, u64_member, JsonValue,
};
use crate::utils::number::{u64_from_digits, u64_from_str_radix};

verus! {

/// Player profile information.
#[derive(Debug, Clone)]
pub struct PlayerInfo {
    pub user_id: String,
    pub username: String,
    /// Squadron (clan) id.
    pub squadron_id: String,
    pub squadron_tag: String,
    /// Gaming platform.
    pub platform: String,
}

/// Player performance in the battle. Integers are the JSON integers truncated
/// to 32 bits; `wait_time` is the JSON number's text.
#[derive(Debug, Clone)]
pub struct PlayerReplayData {
    pub user_id: String,
    pub squad: i32,
    pub auto_squad: bool,
    pub team: i32,
    pub wait_time: String,
    pub kills: i32,
    pub ground_kills: i32,
    pub naval_kills: i32,
    pub team_kills: i32,
    pub ai_kills: i32,
    pub ai_ground_kills: i32,
    pub ai_naval_kills: i32,
    pub assists: i32,
    pub deaths: i32,
    pub capture_zone: i32,
    pub damage_zone: i32,
    pub score: i32,
    pub award_damage: i32,
    pub missile_evades: i32,
    /// The craft names of the player's lineup, in document order.
    pub lineup: Vec<String>,
}

/// A player's profile and performance.
#[derive(Debug, Clone)]
pub struct PlayerData {
    pub player_info: PlayerInfo,
    pub replay_data: PlayerReplayData,
}

/// The results of a battle.
#[derive(Debug, Clone)]
pub struct ReplayResults {
    /// Battle status as written ("fail", "success", "left", ...).
    pub status: String,
    /// Seconds played: the JSON number's text.
    pub time_played: String,
    pub author_user_id: String,
    pub author: String,
    /// The players, in the order of the document's `player` array.
    pub players: Vec<PlayerData>,
}

/// Why results could not be read from JSON text.
#[derive(Debug, Clone, Copy, PartialEq, Eq, Structural)]
pub enum ResultsError {
    /// The text is not JSON.
    NotJson,
    /// The document is not an object.
    NotAnObject,
}

pub struct PlayerInfoView {
    pub user_id: Seq<char>,
    pub username: Seq<char>,
    pub squadron_id: Seq<char>,
    pub squadron_tag: Seq<char>,
    pub platform: Seq<char>,
}

pub struct PlayerReplayDataView {
    pub user_id: Seq<char>,
    pub squad: i32,
    pub auto_squad: bool,
    pub team: i32,
    pub wait_time: Seq<char>,
    pub kills: i32,
    pub ground_kills: i32,
    pub naval_kills: i32,
    pub team_kills: i32,
    pub ai_kills: i32,
    pub ai_ground_kills: i32,
    pub ai_naval_kills: i32,
    pub assists: i32,
    pub deaths: i32,
    pub capture_zone: i32,
    pub damage_zone: i32,
    pub score: i32,
    pub award_damage: i32,
    pub missile_evades: i32,
    pub lineup: Seq<Seq<char>>,
}

pub struct PlayerDataView {
    pub player_info: PlayerInfoView,
    pub replay_data: PlayerReplayDataView,
}

pub struct ReplayResultsView {
    pub status: Seq<char>,
    pub time_played: Seq<char>,
    pub author_user_id: Seq<char>,
    pub author: Seq<char>,
    pub players: Seq<PlayerDataView>,
}

pub open spec fn strings_view(v: Seq<String>) -> Seq<Seq<char>> {
    v.map_values(|s: String| s@)
}

impl View for PlayerInfo {
    type V = PlayerInfoView;

    open spec fn view(&self) -> PlayerInfoView {
        PlayerInfoView {
            user_id: self.user_id@,
            username: self.username@,
            squadron_id: self.squadron_id@,
            squadron_tag: self.squadron_tag@,
            platform: self.platform@,
        }
    }
}

impl View for PlayerReplayData {
    type V = PlayerReplayDataView;

    open spec fn view(&self) -> PlayerReplayDataView {
        PlayerReplayDataView {
            user_id: self.user_id@,
            squad: self.squad,
            auto_squad: self.auto_squad,
            team: self.team,
            wait_time: self.wait_time@,
            kills: self.kills,
            ground_kills: self.ground_kills,
            naval_kills: self.naval_kills,
            team_kills: self.team_kills,
            ai_kills: self.ai_kills,
            ai_ground_kills: self.ai_ground_kills,
            ai_naval_kills: self.ai_naval_kills,
            assists: self.assists,
            deaths: self.deaths,
            capture_zone: self.capture_zone,
            damage_zone: self.damage_zone,
            score: self.score,
            award_damage: self.award_damage,
            missile_evades: self.missile_evades,
            lineup: strings_view(self.lineup@),
        }
    }
}

impl View for PlayerData {
    type V = PlayerDataView;

    open spec fn view(&self) -> PlayerDataView {
        PlayerDataView { player_info: self.player_info@, replay_data: self.replay_data@ }
    }
}

pub open spec fn players_view(v: Seq<PlayerData>) -> Seq<PlayerDataView> {
    v.map_values(|p: PlayerData| p@)
}

impl View for ReplayResults {
    type V = ReplayResultsView;

    open spec fn view(&self) -> ReplayResultsView {
        ReplayResultsView {
            status: self.status@,
            time_played: self.time_played@,
            author_user_id: self.author_user_id@,
            author: self.author@,
            players: players_view(self.players@),
        }
    }
}

pub open spec fn str_or(v: Option<Seq<char>>, d: Seq<char>) -> Seq<char> {
    match v {
        Some(s) => s,
        None => d,
    }
}

pub open spec fn i32_or_zero(v: Option<i64>) -> i32 {
    (match v {
        Some(x) => x,
        None => 0,
    }) as i32
}

/// Whether a player's user id names the info entry whose id is `id`. The text
/// of the id always reads back as the id, so comparing the user id's decimal
/// value (0 when it has none) with the id covers comparing it with the text.
pub open spec fn id_matches(user_id: Seq<char>, id: u64) -> bool {
    (match u64_from_digits(user_id, 10) {
        Some(v) => v,
        None => 0,
    }) == id
}

pub open spec fn info_matches(info: JsonValue, user_id: Seq<char>) -> bool {
    &&& info is Object
    &&& id_matches(
        user_id,
        match as_u64(member(info, "id"@)) {
            Some(x) => x,
            None => 0,
        },
    )
}

/// The first info entry, in document order, that matches `user_id`.
pub open spec fn matching_info(infos: Seq<(String, JsonValue)>, user_id: Seq<char>) -> Option<JsonValue>
    decreases infos.len(),
{
    if infos.len() == 0 {
        None
    } else {
        match matching_info(infos.drop_last(), user_id) {
            Some(x) => Some(x),
            None => if info_matches(infos.last().1, user_id) {
                Some(infos.last().1)
            } else {
                None
            },
        }
    }
}

/// The string values among an object's entries, in order.
pub open spec fn string_values(es: Seq<(String, JsonValue)>) -> Seq<Seq<char>>
    decreases es.len(),
{
    if es.len() == 0 {
        seq![]
    } else {
        string_values(es.drop_last()) + match es.last().1 {
            JsonValue::Str(s) => seq![s@],
            _ => seq![],
        }
    }
}

pub open spec fn lineup_of(info: JsonValue) -> Seq<Seq<char>> {
    match member(info, "crafts"@) {
        Some(JsonValue::Object(es)) => string_values(es@),
        _ => seq![],
    }
}

pub open spec fn player_info_of(info: JsonValue, user_id: Seq<char>) -> PlayerInfoView {
    PlayerInfoView {
        user_id,
        username: str_or(as_str(member(info, "name"@)), ""@),
        squadron_id: str_or(as_str(member(info, "clanId"@)), ""@),
        squadron_tag: str_or(as_str(member(info, "squadronTag"@)), ""@),
        platform: str_or(as_str(member(info, "platform"@)), ""@),
    }
}

pub open spec fn replay_data_of(p: JsonValue, info: JsonValue, user_id: Seq<char>) -> PlayerReplayDataView {
    PlayerReplayDataView {
        user_id,
        squad: i32_or_zero(as_i64(member(p, "squadId"@))),
        auto_squad: match as_bool(member(p, "autoSquad"@)) {
            Some(b) => b,
            None => false,
        },
        team: i32_or_zero(as_i64(member(p, "team"@))),
        wait_time: str_or(as_number_text(member(info, "wait_time"@)), "0"@),
        kills: i32_or_zero(as_i64(member(p, "kills"@))),
        ground_kills: i32_or_zero(as_i64(member(p, "groundKills"@))),
        naval_kills: i32_or_zero(as_i64(member(p, "navalKills"@))),
        team_kills: i32_or_zero(as_i64(member(p, "teamKills"@))),
        ai_kills: i32_or_zero(as_i64(member(p, "aiKills"@))),
        ai_ground_kills: i32_or_zero(as_i64(member(p, "aiGroundKills"@))),
        ai_naval_kills: i32_or_zero(as_i64(member(p, "aiNavalKills"@))),
        assists: i32_or_zero(as_i64(member(p, "assists"@))),
        deaths: i32_or_zero(as_i64(member(p, "deaths"@))),
        capture_zone: i32_or_zero(as_i64(member(p, "captureZone"@))),
        damage_zone: i32_or_zero(as_i64(member(p, "damageZone"@))),
        score: i32_or_zero(as_i64(member(p, "score"@))),
        award_damage: i32_or_zero(as_i64(member(p, "awardDamage"@))),
        missile_evades: i32_or_zero(as_i64(member(p, "missileEvades"@))),
        lineup: lineup_of(info),
    }
}

/// The record of one element of the `player` array: its info entry is the
/// first one matching its `userId`; a player without one is left out.
pub open spec fn player_of(p: JsonValue, infos: Seq<(String, JsonValue)>) -> Option<PlayerDataView> {
    let user_id = str_or(as_str(member(p, "userId"@)), ""@);
    if p is Object {
        match matching_info(infos, user_id) {
            Some(info) => Some(
                PlayerDataView {
                    player_info: player_info_of(info, user_id),
                    replay_data: replay_data_of(p, info, user_id),
                },
            ),
            None => None,
        }
    } else {
        None
    }
}

pub open spec fn players_of(ps: Seq<JsonValue>, infos: Seq<(String, JsonValue)>) -> Seq<PlayerDataView>
    decreases ps.len(),
{
    if ps.len() == 0 {
        seq![]
    } else {
        players_of(ps.drop_last(), infos) + match player_of(ps.last(), infos) {
            Some(x) => seq![x],
            None => seq![],
        }
    }
}

/// The players of a results document: its `player` array read against
/// `uiScriptsData.playersInfo`; none when either is missing.
pub open spec fn document_players(root: JsonValue) -> Seq<PlayerDataView> {
    match member(root, "player"@) {
        Some(JsonValue::Array(ps)) => match member(root, "uiScriptsData"@) {
            Some(ui) => match member(ui, "playersInfo"@) {
                Some(JsonValue::Object(infos)) => players_of(ps@, infos@),
                _ => seq![],
            },
            None => seq![],
        },
        _ => seq![],
    }
}

/// The results that a document holds; `None` when it is not an object.
pub open spec fn results_of(root: JsonValue) -> Option<ReplayResultsView> {
    if root is Object {
        Some(
            ReplayResultsView {
                status: str_or(as_str(member(root, "status"@)), "unknown"@),
                time_played: str_or(as_number_text(member(root, "timePlayed"@)), "0"@),
                author_user_id: str_or(as_str(member(root, "authorUserId"@)), "-1"@),
                author: str_or(as_str(member(root, "author"@)), "server"@),
                players: document_players(root),
            },
        )
    } else {
        None
    }
}

proof fn lemma_matching_info_prefix(
    infos: Seq<(String, JsonValue)>,
    n: int,
    m: int,
    user_id: Seq<char>,
)
    requires
        0 <= n <= m <= infos.len(),
        matching_info(infos.take(n), user_id) is Some,
    ensures
        matching_info(infos.take(m), user_id) == matching_info(infos.take(n), user_id),
    decreases m - n,
{
    if m > n {
        lemma_matching_info_prefix(infos, n, m - 1, user_id);
        assert(infos.take(m).drop_last() =~= infos.take(m - 1));
    }
}

/// The first info entry that matches `user_id`.
fn find_player_info<'a>(infos: &'a Vec<(String, JsonValue)>, user_id: &String) -> (r: Option<
    &'a JsonValue,
>)
    ensures
        r matches Some(x) ==> matching_info(infos@, user_id@) == Some(*x),
        r is None ==> matching_info(infos@, user_id@) is None,
{
    let wanted: u64 = match u64_from_str_radix(user_id.as_str(), 10) {
        Ok(v) => v,
        Err(_) => 0,
    };
    let mut i: usize = 0;
    while i < infos.len()
        invariant
            i <= infos@.len(),
            wanted == (match u64_from_digits(user_id@, 10) {
                Some(v) => v,
                None => 0,
            }),
            matching_info(infos@.take(i as int), user_id@) is None,
        decreases infos@.len() - i,
    {
        let info = &infos[i].1;
        let hit = match info {
            JsonValue::Object(_) => u64_member(info, "id") == wanted,
            _ => false,
        };
        proof {
            assert(infos@.take(i + 1).drop_last() =~= infos@.take(i as int));
            assert(infos@.take(i + 1).last() == infos@[i as int]);
            assert(hit == info_matches(infos@[i as int].1, user_id@));
        }
        if hit {
            proof {
                lemma_matching_info_prefix(infos@, i + 1, infos@.len() as int, user_id@);
                assert(infos@.take(infos@.len() as int) =~= infos@);
            }
            return Some(info);
        }
        i = i + 1;
    }
    assert(infos@.take(i as int) =~= infos@);
    None
}

/// The craft names of an info entry's `crafts` object, in document order.
fn lineup_from(info: &JsonValue) -> (v: Vec<String>)
    ensures
        strings_view(v@) == lineup_of(*info),
{
    let mut lineup: Vec<String> = Vec::new();
    match member_of(info, "crafts") {
        Some(JsonValue::Object(es)) => {
            let mut i: usize = 0;
            while i < es.len()
                invariant
                    i <= es@.len(),
                    strings_view(lineup@) == string_values(es@.take(i as int)),
                decreases es@.len() - i,
            {
                match &es[i].1 {
                    JsonValue::Str(name) => {
                        lineup.push(name.clone());
                    },
                    _ => {},
                }
                proof {
                    assert(es@.take(i + 1).drop_last() =~= es@.take(i as int));
                    assert(es@.take(i + 1).last() == es@[i as int]);
                    assert(strings_view(lineup@) =~= string_values(es@.take(i + 1)));
                }
                i = i + 1;
            }
            assert(es@.take(i as int) =~= es@);
        },
        _ => {},
    }
    assert(strings_view(lineup@) =~= lineup_of(*info));
    lineup
}

fn player_info_from(info: &JsonValue, user_id: String) -> (r: PlayerInfo)
    ensures
        r@ == player_info_of(*info, user_id@),
{
    PlayerInfo {
        user_id,
        username: str_member(info, "name", ""),
        squadron_id: str_member(info, "clanId", ""),
        squadron_tag: str_member(info, "squadronTag", ""),
        platform: str_member(info, "platform", ""),
    }
}

#[verifier::rlimit(40)]
fn replay_data_from(p: &JsonValue, info: &JsonValue, user_id: String) -> (r: PlayerReplayData)
    ensures
        r@ == replay_data_of(*p, *info, user_id@),
{
    PlayerReplayData {
        user_id,
        squad: i32_member(p, "squadId"),
        auto_squad: bool_member(p, "autoSquad"),
        team: i32_member(p, "team"),
        wait_time: number_text_member(info, "wait_time"),
        kills: i32_member(p, "kills"),
        ground_kills: i32_member(p, "groundKills"),
        naval_kills: i32_member(p, "navalKills"),
        team_kills: i32_member(p, "teamKills"),
        ai_kills: i32_member(p, "aiKills"),
        ai_ground_kills: i32_member(p, "aiGroundKills"),
        ai_naval_kills: i32_member(p, "aiNavalKills"),
        assists: i32_member(p, "assists"),
        deaths: i32_member(p, "deaths"),
        capture_zone: i32_member(p, "captureZone"),
        damage_zone: i32_member(p, "damageZone"),
        score: i32_member(p, "score"),
        award_damage: i32_member(p, "awardDamage"),
        missile_evades: i32_member(p, "missileEvades"),
        lineup: lineup_from(info),
    }
}

/// The record of one element of the `player` array, when it has an info entry.
fn player_data(p: &JsonValue, infos: &Vec<(String, JsonValue)>) -> (r: Option<PlayerData>)
    ensures
        r is Some <==> player_of(*p, infos@) is Some,
        r matches Some(x) ==> player_of(*p, infos@) == Some(x@),
{
    match p {
        JsonValue::Object(_) => {},
        _ => {
            return None;
        },
    }
    let user_id = str_member(p, "userId", "");
    let info = match find_player_info(infos, &user_id) {
        Some(x) => x,
        None => {
            return None;
        },
    };
    let player_info = player_info_from(info, user_id.clone());
    let replay_data = replay_data_from(p, info, user_id);
    Some(PlayerData { player_info, replay_data })
}

/// The players of a results document.
fn players_from(root: &JsonValue) -> (v: Vec<PlayerData>)
    ensures
        players_view(v@) == document_players(*root),
{
    let mut players: Vec<PlayerData> = Vec::new();
    let ps = match member_of(root, "player") {
        Some(JsonValue::Array(ps)) => ps,
        _ => {
            assert(players_view(players@) =~= seq![]);
            return players;
        },
    };
    let infos = match member_of(root, "uiScriptsData") {
        Some(ui) => match member_of(ui, "playersInfo") {
            Some(JsonValue::Object(infos)) => infos,
            _ => {
                assert(players_view(players@) =~= seq![]);
                return players;
            },
        },
        None => {
            assert(players_view(players@) =~= seq![]);
            return players;
        },
    };
    assert(document_players(*root) == players_of(ps@, infos@));
    let mut i: usize = 0;
    while i < ps.len()
        invariant
            i <= ps@.len(),
            players_view(players@) == players_of(ps@.take(i as int), infos@),
        decreases ps@.len() - i,
    {
        match player_data(&ps[i], infos) {
            Some(x) => {
                players.push(x);
            },
            None => {},
        }
        proof {
            assert(ps@.take(i + 1).drop_last() =~= ps@.take(i as int));
            assert(ps@.take(i + 1).last() == ps@[i as int]);
            assert(players_view(players@) =~= players_of(ps@.take(i + 1), infos@));
        }
        i = i + 1;
    }
    assert(ps@.take(i as int) =~= ps@);
    players
}

/// Maps a decoded results document to the results record; `NotAnObject` when
/// the document is not an object.
pub fn results_from_json(root: &JsonValue) -> (r: Result<ReplayResults, ResultsError>)
    ensures
        match results_of(*root) {
            Some(v) => r matches Ok(x) && x@ == v,
            None => r == Err::<ReplayResults, ResultsError>(ResultsError::NotAnObject),
        },
{
    match root {
        JsonValue::Object(_) => {},
        _ => {
            return Err(ResultsError::NotAnObject);
        },
    }
    Ok(
        ReplayResults {
            status: str_member(root, "status", "unknown"),
            time_played: number_text_member(root, "timePlayed"),
            author_user_id: str_member(root, "authorUserId", "-1"),
            author: str_member(root, "author", "server"),
            players: players_from(root),
        },
    )
}

/// Reads the results record from the JSON text that the results block
/// decodes to.
pub fn parse_replay_results_json(json_data: &str) -> (r: Result<ReplayResults, ResultsError>)
    ensures
        match json_document(json_data@) {
            None => r == Err::<ReplayResults, ResultsError>(ResultsError::NotJson),
            Some(root) => match results_of(root) {
                Some(v) => r matches Ok(x) && x@ == v,
                None => r == Err::<ReplayResults, ResultsError>(ResultsError::NotAnObject),
            },
        },
{
    match parse_json(json_data) {
        Some(root) => results_from_json(&root),
        None => Err(ResultsError::NotJson),
    }
}

/// Where the results block starts: `rez_offset` when it lies inside the file
/// and is not 0 (a server capture has none).
pub fn results_block_start(data: &[u8], rez_offset: u32) -> (r: Option<usize>)
    ensures
        r == (if 0 < rez_offset < data@.len() {
            Some(rez_offset as usize)
        } else {
            None::<usize>
        }),
{
    if rez_offset > 0 && (rez_offset as usize) < data.len() {
        Some(rez_offset as usize)
    } else {
        None
    }
}

} // verus!

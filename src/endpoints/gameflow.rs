//! The game-flow endpoint and the shapes it returns.
use vstd::prelude::*;

use crate::endpoints::{EndpointInfo, Method};

verus! {

const GAMEFLOW_URL: &'static str = "/lol-gameflow/v1";

/// A JSON value whose shape the driver does not interpret.
#[verifier::external_type_specification]
#[verifier::external_body]
pub struct ExJsonValue(serde_json::Value);

/// The game-flow endpoints.
pub enum GameFlowEndpoint {
    /// The current session.
    Session,
}

impl GameFlowEndpoint {
    /// The request that reaches this endpoint.
    pub fn info(&self) -> (r: EndpointInfo)
        ensures
            r.url@ == "/lol-gameflow/v1/session"@,
            r.method == Method::Get,
            r.headers is None,
            r.body is None,
    {
        proof {
            reveal_strlit("/lol-gameflow/v1");
            reveal_strlit("/session");
            reveal_strlit("/lol-gameflow/v1/session");
        }
        match self {
            GameFlowEndpoint::Session => EndpointInfo {
                url: String::from_str(GAMEFLOW_URL).concat("/session"),
                method: Method::Get,
                headers: None,
                body: None,
            },
        }
    }
}

/// The summoner spells that a mode forbids: spells 11 and 12 in ARAM, none elsewhere.
pub open spec fn disallowed_spells_of(mode: GameMode) -> Option<Seq<isize>> {
    match mode {
        GameMode::Aram => Some(seq![11isize, 12isize]),
        _ => None,
    }
}

/// The game-flow session as the API reports it.
#[derive(Debug)]
pub struct GameFlowSession {
    pub game_client: GameClient,
    pub game_data: GameData,
    pub game_dodge: GameDodge,
    pub map: GameMap,
    pub phase: GameFlowPhase,
}

/// The phase of the game flow.
#[derive(Debug, Clone, Copy, PartialEq, Eq, Structural)]
pub enum GameFlowPhase {
    /// No game flow is under way (the API's `None`).
    Idle,
    Lobby,
    Matchmaking,
    CheckedIntoTournament,
    ReadyCheck,
    ChampSelect,
    GameStart,
    FailedToLaunch,
    InProgress,
    Reconnect,
    WaitingForStats,
    PreEndOfGame,
    EndOfGame,
    TerminatedInError,
}

#[derive(Debug)]
pub struct GameClient {
    pub observer_server_ip: String,
    pub observer_server_port: isize,
    pub running: bool,
    pub server_ip: String,
    pub server_port: isize,
    pub visible: bool,
}

#[derive(Debug)]
pub struct GameData {
    pub game_id: isize,
    pub game_name: String,
    pub is_custom_game: bool,
    pub password: String,
    pub player_champion_selections: Vec<serde_json::Value>,
    pub queue: Queue,
    pub spectators_allowed: bool,
    pub team_one: Vec<serde_json::Value>,
    pub team_two: Vec<serde_json::Value>,
}

#[derive(Debug)]
pub struct Queue {
    pub allowable_premade_sizes: Vec<isize>,
    pub are_free_champions_allowed: bool,
    pub asset_mutator: String,
    pub category: String,
    pub champions_required_to_play: isize,
    pub description: String,
    pub detailed_description: String,
    pub game_mode: String,
    pub game_type_config: GameTypeConfig,
    pub id: isize,
    pub is_ranked: bool,
    pub is_team_builder_managed: bool,
    pub is_team_only: bool,
    pub last_toggled_off_time: isize,
    pub last_toggled_on_time: isize,
    pub map_id: isize,
    pub max_level: isize,
    pub max_summoner_level_for_first_win_of_the_day: isize,
    pub maximum_participant_list_size: isize,
    pub min_level: isize,
    pub minimum_participant_list_size: isize,
    pub name: String,
    pub num_players_per_team: isize,
    pub queue_availability: String,
    pub queue_rewards: QueueRewards,
    pub removal_from_game_allowed: bool,
    pub removal_from_game_delay_minutes: isize,
    pub short_name: String,
    pub show_position_selector: bool,
    pub spectator_enabled: bool,
    pub type_field: String,
}

#[derive(Debug)]
pub struct GameTypeConfig {
    pub advanced_learning_quests: bool,
    pub allow_trades: bool,
    pub ban_mode: String,
    pub ban_timer_duration: isize,
    pub battle_boost: bool,
    pub cross_team_champion_pool: bool,
    pub death_match: bool,
    pub do_not_remove: bool,
    pub duplicate_pick: bool,
    pub exclusive_pick: bool,
    pub id: isize,
    pub learning_quests: bool,
    pub main_pick_timer_duration: isize,
    pub max_allowable_bans: isize,
    pub name: String,
    pub onboard_coop_beginner: bool,
    pub pick_mode: String,
    pub post_pick_timer_duration: isize,
    pub reroll: bool,
    pub team_champion_pool: bool,
}

#[derive(Debug)]
pub struct QueueRewards {
    pub is_champion_points_enabled: bool,
    pub is_ip_enabled: bool,
    pub is_xp_enabled: bool,
    pub party_size_ip_rewards: Vec<serde_json::Value>,
}

#[derive(Debug)]
pub struct GameDodge {
    pub dodge_ids: Vec<serde_json::Value>,
    pub phase: String,
    pub state: String,
}

/// The map of the current game.
#[derive(Debug)]
pub struct GameMap {
    pub assets: Assets,
    pub categorized_content_bundles: CategorizedContentBundles,
    pub description: String,
    pub game_mode: GameMode,
    pub game_mode_name: String,
    pub game_mode_short_name: String,
    pub game_mutator: String,
    pub id: isize,
    pub is_rgm: bool,
    pub map_string_id: String,
    pub name: String,
    pub per_position_disallowed_summoner_spells: PerPositionDisallowedSummonerSpells,
    pub per_position_required_summoner_spells: PerPositionRequiredSummonerSpells,
    pub platform_id: String,
    pub platform_name: String,
    pub properties: Properties,
}

/// The mode of the current game.
#[derive(Debug, Clone, Copy, PartialEq, Eq, Structural)]
pub enum GameMode {
    Classic,
    Aram,
    PracticeTool,
    NexusBlitz,
    Unknown,
}

#[derive(Debug)]
pub struct Assets {
    pub champ_select_background_sound: String,
    pub champ_select_flyout_background: String,
    pub champ_select_planning_intro: Option<String>,
    pub game_select_icon_active: String,
    pub game_select_icon_active_video: String,
    pub game_select_icon_default: String,
    pub game_select_icon_disabled: String,
    pub game_select_icon_hover: String,
    pub game_select_icon_intro_video: String,
    pub gameflow_background: String,
    pub gameselect_button_hover_sound: String,
    pub icon_defeat: String,
    pub icon_defeat_video: String,
    pub icon_empty: String,
    pub icon_hover: String,
    pub icon_leaver: String,
    pub icon_victory: String,
    pub icon_victory_video: String,
    pub map_north: Option<String>,
    pub map_south: Option<String>,
    pub music_inqueue_loop_sound: String,
    pub parties_background: String,
    pub postgame_ambience_loop_sound: String,
    pub ready_check_background: String,
    pub ready_check_background_sound: String,
    pub sfx_ambience_pregame_loop_sound: String,
    pub social_icon_leaver: String,
    pub social_icon_victory: String,
}

#[derive(Debug)]
pub struct Properties {
    pub suppress_runes_masteries_perks: bool,
}

#[derive(Debug)]
pub struct CategorizedContentBundles {}

#[derive(Debug)]
pub struct PerPositionDisallowedSummonerSpells {}

#[derive(Debug)]
pub struct PerPositionRequiredSummonerSpells {}

impl GameMode {
    /// The summoner spells this mode forbids, if any.
    pub fn disallowed_summoner_spells(&self) -> (r: Option<Vec<isize>>)
        ensures
            match disallowed_spells_of(*self) {
                Some(v) => r matches Some(x) && x@ == v,
                None => r is None,
            },
    {
        match self {
            GameMode::Classic | GameMode::PracticeTool | GameMode::NexusBlitz
            | GameMode::Unknown => None,
            GameMode::Aram => {
                let v: Vec<isize> = vec![11, 12];
                proof {
                    assert(v@ =~= seq![11isize, 12isize]);
                }
                Some(v)
            },
        }
    }
}

impl Default for GameMode {
    /// A mode the API did not name is unknown.
    fn default() -> (r: Self)
        ensures
            r == GameMode::Unknown,
    {
        GameMode::Unknown
    }
}

} // verus!

//! The champion-selection endpoints and the shapes they exchange.
use vstd::prelude::*;

use crate::endpoints::{EndpointInfo, Method};

verus! {

const CHAMP_SELECT_URL: &'static str = "/lol-champ-select/v1";

/// The champion-selection endpoints.
pub enum ChampSelectEndpoint<'a> {
    /// The current session.
    Session,
    /// The local player's selection, with the encoded choices to send.
    SessionMySelection(&'a str),
}

impl<'a> ChampSelectEndpoint<'a> {
    /// The request that reaches this endpoint.
    pub fn info(&self) -> (r: EndpointInfo)
        ensures
            r.headers is None,
            match self {
                ChampSelectEndpoint::Session => r.url@ == "/lol-champ-select/v1/session"@
                    && r.method == Method::Get && r.body is None,
                ChampSelectEndpoint::SessionMySelection(body) => r.url@
                    == "/lol-champ-select/v1/session/my-selection"@ && r.method == Method::Patch
                    && (r.body matches Some(b) && b@ == body@),
            },
    {
        proof {
            reveal_strlit("/lol-champ-select/v1");
            reveal_strlit("/session");
            reveal_strlit("/lol-champ-select/v1/session");
            reveal_strlit("/session/my-selection");
            reveal_strlit("/lol-champ-select/v1/session/my-selection");
        }
        match self {
            ChampSelectEndpoint::Session => EndpointInfo {
                url: String::from_str(CHAMP_SELECT_URL).concat("/session"),
                method: Method::Get,
                headers: None,
                body: None,
            },
            ChampSelectEndpoint::SessionMySelection(body) => EndpointInfo {
                url: String::from_str(CHAMP_SELECT_URL).concat("/session/my-selection"),
                method: Method::Patch,
                headers: None,
                body: Some(String::from_str(body)),
            },
        }
    }
}

/// The champion-selection session as the API reports it.
#[derive(Debug)]
pub struct ChampSelectSession {
    pub actions: Option<Vec<Vec<Action>>>,
    pub allow_battle_boost: Option<bool>,
    pub allow_duplicate_picks: bool,
    pub allow_locked_events: bool,
    pub allow_rerolling: bool,
    pub allow_skin_selection: bool,
    pub bans: Bans,
    pub bench_champion_ids: Vec<isize>,
    pub bench_enabled: bool,
    pub boostable_skin_count: isize,
    pub chat_details: ChatDetails,
    pub counter: isize,
    pub entitled_feature_state: EntitledFeatureState,
    pub game_id: isize,
    pub has_simultaneous_bans: bool,
    pub has_simultaneous_picks: bool,
    pub is_custom_game: bool,
    pub is_spectating: bool,
    pub local_player_cell_id: isize,
    pub locked_event_index: isize,
    pub my_team: Vec<PlayerSelection>,
    pub rerolls_remaining: isize,
    pub skip_champion_select: bool,
    pub their_team: Vec<PlayerSelection>,
    pub timer: Timer,
    pub trades: Vec<TradeContract>,
}

#[derive(Debug)]
pub struct Action {
    pub actor_cell_id: isize,
    pub champion_id: isize,
    pub completed: bool,
    pub id: isize,
    pub is_ally_action: bool,
    pub is_in_progress: bool,
    pub pick_turn: Option<isize>,
    pub type_field: String,
}

#[derive(Debug)]
pub struct Bans {
    pub my_team_bans: Vec<BannedChampions>,
    pub num_bans: isize,
    pub their_team_bans: Vec<BannedChampions>,
}

#[derive(Debug)]
pub struct BannedChampions {
    pub my_team_bans: Vec<isize>,
    pub num_bans: isize,
    pub their_team_bans: Vec<isize>,
}

#[derive(Debug)]
pub struct ChatDetails {
    pub chat_room_name: Option<String>,
    pub chat_room_password: Option<String>,
}

#[derive(Debug)]
pub struct EntitledFeatureState {
    pub additional_rerolls: isize,
    pub unlocked_skin_ids: Vec<isize>,
}

#[derive(Debug)]
pub struct PlayerSelection {
    pub assigned_position: String,
    pub cell_id: isize,
    pub champion_id: isize,
    pub champion_pick_intent: isize,
    pub entitled_feature_type: String,
    pub selected_skin_id: isize,
    pub spell1_id: isize,
    pub spell2_id: isize,
    pub summoner_id: isize,
    pub team: isize,
    pub ward_skin_id: isize,
}

#[derive(Debug)]
pub struct Timer {
    pub adjusted_time_left_in_phase: isize,
    pub internal_now_in_epoch_ms: isize,
    pub is_infinite: bool,
    pub phase: String,
    pub total_time_in_phase: isize,
}

#[derive(Debug)]
pub struct TradeContract {
    pub cell_id: isize,
    pub id: isize,
    pub state: TradeContractState,
}

#[derive(Debug, Clone, Copy, PartialEq, Eq, Structural)]
pub enum TradeContractState {
    Available,
    Busy,
    Invalid,
    Received,
    Sent,
    Declined,
    Cancelled,
    Accepted,
}

/// The local player's cosmetic and spell choices, as sent to the API.
#[derive(Debug)]
pub struct MySelection {
    pub selected_skin_id: isize,
    pub spell_1_id: isize,
    pub spell_2_id: isize,
    pub ward_skin_id: isize,
}

} // verus!

//! The account-profile endpoint and the shape it returns.
use vstd::prelude::*;

use crate::endpoints::{EndpointInfo, Method};

verus! {

const SUMMONER_URL: &'static str = "/lol-summoner/v1";

/// The account-profile endpoints.
pub enum SummonerEndpoint {
    /// The signed-in account.
    Current,
}

impl SummonerEndpoint {
    /// The request that reaches this endpoint.
    pub fn info(&self) -> (r: EndpointInfo)
        ensures
            r.url@ == "/lol-summoner/v1/current-summoner"@,
            r.method == Method::Get,
            r.headers is None,
            r.body is None,
    {
        proof {
            reveal_strlit("/lol-summoner/v1");
            reveal_strlit("/current-summoner");
            reveal_strlit("/lol-summoner/v1/current-summoner");
        }
        match self {
            SummonerEndpoint::Current => EndpointInfo {
                url: String::from_str(SUMMONER_URL).concat("/current-summoner"),
                method: Method::Get,
                headers: None,
                body: None,
            },
        }
    }
}

/// The signed-in account's profile.
#[derive(Debug)]
pub struct Summoner {
    pub account_id: isize,
    pub display_name: String,
    pub internal_name: String,
    pub name_change_flag: bool,
    pub percent_complete_for_next_level: isize,
    pub profile_icon_id: isize,
    pub puuid: String,
    pub reroll_points: RerollPoints,
    pub summoner_id: isize,
    pub summoner_level: isize,
    pub unnamed: bool,
    pub xp_since_last_level: isize,
    pub xp_until_next_level: isize,
}

#[derive(Debug)]
pub struct RerollPoints {
    pub current_points: isize,
    pub max_rolls: isize,
    pub number_of_rolls: isize,
    pub points_cost_to_roll: isize,
    pub points_to_reroll: isize,
}

} // verus!

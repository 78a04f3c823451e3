use lcu_driver::endpoints::champ_select::ChampSelectEndpoint;
use lcu_driver::endpoints::gameflow::{GameFlowEndpoint, GameMode};
use lcu_driver::endpoints::perks::{PerksEndpoint, PerksPage};
use lcu_driver::endpoints::summoner::SummonerEndpoint;
use lcu_driver::endpoints::{error_of_response, is_success_status, EndpointInfo, Method};
use lcu_driver::errors::LcuDriverError;
use lcu_driver::models::api_error::{ApiError, LcuApiError};

#[test]
fn endpoint_paths_and_methods() {
    let s = SummonerEndpoint::Current.info();
    assert_eq!(s.url, "/lol-summoner/v1/current-summoner");
    assert_eq!(s.method, Method::Get);
    assert!(s.body.is_none() && s.headers.is_none());

    let g = GameFlowEndpoint::Session.info();
    assert_eq!(g.url, "/lol-gameflow/v1/session");

    let c = ChampSelectEndpoint::Session.info();
    assert_eq!(c.url, "/lol-champ-select/v1/session");
    assert_eq!(c.method, Method::Get);

    let m = ChampSelectEndpoint::SessionMySelection("{\"spell1Id\":4}").info();
    assert_eq!(m.url, "/lol-champ-select/v1/session/my-selection");
    assert_eq!(m.method, Method::Patch);
    assert_eq!(m.body.as_deref(), Some("{\"spell1Id\":4}"));
}

#[test]
fn perks_endpoints() {
    let i = PerksEndpoint::Inventory.info();
    assert_eq!(i.url, "/lol-perks/v1/inventory");
    let p = PerksEndpoint::Pages(Method::Post, Some("{}".to_owned())).info();
    assert_eq!(p.url, "/lol-perks/v1/pages");
    assert_eq!(p.method, Method::Post);
    assert_eq!(p.body.as_deref(), Some("{}"));
    let d = PerksEndpoint::PagesId(Method::Delete, 1234567).info();
    assert_eq!(d.url, "/lol-perks/v1/pages/1234567");
    assert_eq!(d.method, Method::Delete);
    assert_eq!(PerksEndpoint::PagesId(Method::Delete, -42).info().url, "/lol-perks/v1/pages/-42");
    assert_eq!(PerksEndpoint::PagesId(Method::Get, 0).info().url, "/lol-perks/v1/pages/0");
    assert_eq!(
        PerksEndpoint::PagesId(Method::Get, isize::MIN).info().url,
        "/lol-perks/v1/pages/-9223372036854775808"
    );
}

#[test]
fn method_names() {
    assert_eq!(Method::Get.as_str(), "GET");
    assert_eq!(Method::Post.as_str(), "POST");
    assert_eq!(Method::Patch.as_str(), "PATCH");
    assert_eq!(Method::Delete.as_str(), "DELETE");
}

#[test]
fn content_type_only_with_body() {
    let mut info = EndpointInfo {
        url: "/x".to_owned(),
        method: Method::Post,
        headers: Some(vec![("X-A".to_owned(), "1".to_owned())]),
        body: Some("{}".to_owned()),
    };
    assert_eq!(
        info.request_headers(),
        vec![
            ("X-A".to_owned(), "1".to_owned()),
            ("Content-Type".to_owned(), "application/json".to_owned()),
        ]
    );
    info.body = None;
    assert_eq!(info.request_headers(), vec![("X-A".to_owned(), "1".to_owned())]);
    info.headers = None;
    assert!(info.request_headers().is_empty());
}

#[test]
fn success_statuses() {
    assert!(is_success_status(200));
    assert!(is_success_status(204));
    assert!(is_success_status(299));
    assert!(!is_success_status(199));
    assert!(!is_success_status(300));
    assert!(!is_success_status(400));
    assert!(!is_success_status(404));
}

#[test]
fn unsuccessful_response_errors() {
    let e = ApiError { message: "No active delegate".to_owned(), http_status: 400, ..ApiError::default() };
    assert_eq!(error_of_response(Ok(e)), LcuDriverError::ApiError(LcuApiError::NoActiveDelegate));
    assert_eq!(
        error_of_response(Err("expected value".to_owned())),
        LcuDriverError::Other("expected value".to_owned())
    );
}

#[test]
fn aram_disallows_two_spells() {
    assert_eq!(GameMode::Aram.disallowed_summoner_spells(), Some(vec![11, 12]));
    assert_eq!(GameMode::Classic.disallowed_summoner_spells(), None);
    assert_eq!(GameMode::Unknown.disallowed_summoner_spells(), None);
    assert_eq!(GameMode::default(), GameMode::Unknown);
}

#[test]
fn perks_pages_compare_by_content() {
    let a = PerksPage {
        name: "Page".to_owned(),
        primary_style_id: 8000,
        sub_style_id: 8100,
        selected_perk_ids: vec![1, 2, 3],
        id: 1,
        ..PerksPage::default()
    };
    let b = PerksPage {
        name: "Page".to_owned(),
        primary_style_id: 8000,
        sub_style_id: 8100,
        selected_perk_ids: vec![1, 2, 3],
        id: 2,
        current: false,
        ..PerksPage::default()
    };
    assert_eq!(a, b);
    let c = PerksPage { selected_perk_ids: vec![1, 2, 4], ..PerksPage::default() };
    let d = PerksPage { selected_perk_ids: vec![1, 2], ..PerksPage::default() };
    assert_ne!(c, d);
    assert_ne!(a, c);
}

#[test]
fn default_perks_page() {
    let p = PerksPage::default();
    assert!(p.current && p.is_active && p.is_deletable && p.is_editable && p.is_valid);
    assert_eq!(p.id, 0);
    assert_eq!(p.name, "");
    assert!(p.selected_perk_ids.is_empty() && p.auto_modified_selections.is_empty());
}

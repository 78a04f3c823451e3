use std::path::Path;

use lcu_driver::errors::LcuDriverError;
use lcu_driver::models::errors::LcuHelperError;
use lcu_driver::models::lcu_process::{
    command_line_from_ps, command_line_from_wmic, join_path, lutris_install_directory, LcuProcess,
};
use lcu_driver::models::league_ux_process::LeagueClientUxProcess;

const SPACED: &str = r#""C:/Riot Games/League of Legends/LeagueClientUx.exe" --no-rads --disable-self-update --region=EUW --locale=en_GB --respawn-command=LeagueClient.exe --no-proxy-server --install-directory=C:\Riot Games\League of Legends"#;

const QUOTED: &str = r#""C:/Riot Games/League of Legends/LeagueClientUx.exe" "--no-rads" "--disable-self-update" "--region=EUW" "--locale=en_GB" "--respawn-command=LeagueClient.exe" "--no-proxy-server" "--install-directory=C:\Riot Games\League of Legends""#;

#[test]
fn lcu_process_get_argument_value_is_none() {
    assert_eq!(LcuProcess::argument_value("", "--install-directory="), None);
}

#[test]
fn lcu_process_get_argument_value_is_some() {
    let league_process = LcuProcess::new(SPACED.to_owned()).unwrap();

    assert_eq!(
        Path::new(league_process.install_directory()),
        Path::new("C:\\Riot Games\\League of Legends")
    );
}

#[test]
fn league_ux_process_get_argument_value_is_none() {
    let league_process = LeagueClientUxProcess::new("".to_owned());

    assert_eq!(league_process.get_argument_value("--install-directory"), None);
}

#[test]
fn league_ux_process_get_argument_value_is_some() {
    let league_process = LeagueClientUxProcess::new(QUOTED.to_owned());

    assert_eq!(
        league_process.get_argument_value("--install-directory="),
        Some("C:\\Riot Games\\League of Legends")
    );
}

#[test]
fn argument_value_stops_at_next_option() {
    let line = "LeagueClientUx.exe --install-directory=C:\\Games\\App --region=EUW";
    assert_eq!(
        LcuProcess::argument_value(line, "install-directory="),
        Some("C:\\Games\\App")
    );
}

#[test]
fn argument_value_of_middle_and_last_options() {
    let p = LcuProcess::new(SPACED.to_owned()).unwrap();
    assert_eq!(p.get_argument_value("region="), Some("EUW"));
    assert_eq!(p.get_argument_value("locale="), Some("en_GB"));
    assert_eq!(p.get_argument_value("no-rads"), Some(""));
    assert_eq!(p.get_argument_value("app-port="), None);
    assert_eq!(p.command_line(), SPACED);
}

#[test]
fn argument_value_removes_every_leading_copy() {
    assert_eq!(LcuProcess::argument_value("x --a=a=b --c", "a="), Some("b"));
}

#[test]
fn argument_value_first_piece_is_not_an_option() {
    assert_eq!(LcuProcess::argument_value("region=NA --region=EUW", "region="), Some("NA"));
}

#[test]
fn new_fails_without_install_directory() {
    assert_eq!(
        LcuProcess::new("LeagueClientUx.exe --region=EUW".to_owned()),
        Err(LcuDriverError::FailedToFindLeagueProcess)
    );
}

#[test]
fn lockfile_path_joins_install_directory() {
    let p = LcuProcess::new("x --install-directory=/opt/league".to_owned()).unwrap();
    assert_eq!(p.lockfile_path(), "/opt/league/lockfile");
    let q = LcuProcess::new("x --install-directory=/opt/league/".to_owned()).unwrap();
    assert_eq!(q.lockfile_path(), "/opt/league/lockfile");
}

#[test]
fn join_path_cases() {
    assert_eq!(join_path("/a", "b"), "/a/b");
    assert_eq!(join_path("/a/", "b"), "/a/b");
    assert_eq!(join_path("", "b"), "b");
    assert_eq!(join_path("/a", "/b"), "/b");
}

#[test]
fn quoted_argument_without_closing_quote() {
    let p = LeagueClientUxProcess::new("\"x.exe\" \"--region=EUW".to_owned());
    assert_eq!(p.get_argument_value("--region="), Some("EUW"));
}

#[test]
fn quoted_argument_before_the_last() {
    let p = LeagueClientUxProcess::new(
        r#""C:/G/LeagueClientUx.exe" "--install-directory=C:\Games\App" "--region=EUW""#.to_owned(),
    );
    assert_eq!(p.get_argument_value("--install-directory="), Some("C:\\Games\\App"));
    assert_eq!(p.get_argument_value("--region="), Some("EUW"));
    assert_eq!(p.get_argument_value("--locale="), None);
}

#[test]
fn wmic_report_gives_unquoted_command_line() {
    let report = "CommandLine\r\r\n\"C:/x/LeagueClientUx.exe\" \"--install-directory=C:\\Riot\"  \r\n";
    assert_eq!(
        command_line_from_wmic(report),
        Some("C:/x/LeagueClientUx.exe --install-directory=C:\\Riot".to_owned())
    );
    assert_eq!(command_line_from_wmic("No Instance(s) Available.\r\n"), None);
}

#[test]
fn wmic_report_to_process() {
    let report = "CommandLine\r\r\n\"C:/Riot Games/LeagueClientUx.exe\" \"--install-directory=C:/Riot Games/League\"\r\n";
    let line = command_line_from_wmic(report).unwrap();
    let p = LcuProcess::new(line).unwrap();
    assert_eq!(p.install_directory(), "C:/Riot Games/League");
}

#[test]
fn quoted_report_to_process() {
    let report = format!("CommandLine\r\r\n{}\r\n\r\n", QUOTED);
    let p = LeagueClientUxProcess::from_report(&report).unwrap();
    assert_eq!(
        p.get_argument_value("--install-directory="),
        Some("C:\\Riot Games\\League of Legends")
    );
    assert_eq!(p.get_argument_value("--region="), Some("EUW"));
    assert_eq!(
        LeagueClientUxProcess::from_report("CommandLine\r\r\n\"x.exe\" \"--region=EUW\"").unwrap_err(),
        LcuHelperError::FailedToFindLeagueProcess
    );
    assert_eq!(
        LeagueClientUxProcess::from_report("").unwrap_err(),
        LcuHelperError::FailedToFindLeagueProcess
    );
}

#[test]
fn ps_listing_gives_first_matching_line() {
    let listing = "ARGS\n/bin/zsh\n/Applications/LeagueClientUx --region=EUW\n/Applications/LeagueClientUx --install-directory=/Applications/League --x\r\nother --install-directory=/y\n";
    assert_eq!(
        command_line_from_ps(listing),
        Some("/Applications/LeagueClientUx --install-directory=/Applications/League --x".to_owned())
    );
    assert_eq!(command_line_from_ps("ARGS\n/bin/zsh\n"), None);
    assert_eq!(
        command_line_from_ps("LeagueClientUx --install-directory=/z\r"),
        Some("LeagueClientUx --install-directory=/z\r".to_owned())
    );
}

#[test]
fn lutris_prefix_remaps_install_directory() {
    let listing = "1 | league-of-legends | League of Legends | wine | /home/u/Games/league\n";
    assert_eq!(
        lutris_install_directory(listing, "C:\\Riot Games\\League of Legends"),
        "/home/u/Games/league/drive_c/Riot Games/League of Legends"
    );
    assert_eq!(lutris_install_directory("/prefix", "D:\\x"), "/prefix/D:/x");
}

#[test]
fn relocated_process_keeps_command_line() {
    let p = LcuProcess::new(SPACED.to_owned()).unwrap();
    let q = p.with_install_directory("/wine/drive_c/Riot".to_owned());
    assert_eq!(q.install_directory(), "/wine/drive_c/Riot");
    assert_eq!(q.command_line(), SPACED);
}

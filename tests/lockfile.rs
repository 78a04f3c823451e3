use lcu_driver::errors::LcuDriverError;
use lcu_driver::models::lockfile::Lockfile;

const CONTENTS: &str = "LeagueClient:1234:50261:qSxvLaMHgq17mxUKaFfSdg:https";

#[test]
fn test_token() {
    let lockfile = Lockfile::from_contents("./test_data/lockfile".to_owned(), CONTENTS.to_owned())
        .expect("Failed to load test file");

    assert_eq!(lockfile.port, 50261);
    assert_eq!(lockfile.token, "cmlvdDpxU3h2TGFNSGdxMTdteFVLYUZmU2Rn");
}

#[test]
fn lockfile_keeps_path_and_contents() {
    let lockfile = Lockfile::from_contents("/x/lockfile".to_owned(), CONTENTS.to_owned()).unwrap();
    assert_eq!(lockfile.path(), "/x/lockfile");
    assert_eq!(lockfile.contents(), CONTENTS);
    assert_eq!(lockfile.port(), 50261);
    assert_eq!(lockfile.token(), "cmlvdDpxU3h2TGFNSGdxMTdteFVLYUZmU2Rn");
}

#[test]
fn parse_fields_gives_port_and_raw_token() {
    assert_eq!(
        Lockfile::parse_fields(CONTENTS),
        Ok((50261, "qSxvLaMHgq17mxUKaFfSdg".to_owned()))
    );
    assert_eq!(Lockfile::parse_fields("a:b:7:t"), Ok((7, "t".to_owned())));
    assert_eq!(Lockfile::parse_fields("a:b:+7:"), Ok((7, "".to_owned())));
    assert_eq!(Lockfile::parse_fields("a:b:-7:t"), Ok((-7, "t".to_owned())));
}

#[test]
fn too_few_fields_is_malformed() {
    assert_eq!(
        Lockfile::parse_fields("LeagueClient:1234:50261"),
        Err(LcuDriverError::FailedToReadLockfileToken)
    );
    assert_eq!(Lockfile::parse_fields(""), Err(LcuDriverError::FailedToReadLockfileToken));
    assert_eq!(
        Lockfile::from_contents("p".to_owned(), "a:b".to_owned()).unwrap_err(),
        LcuDriverError::FailedToReadLockfileToken
    );
}

#[test]
fn non_numeric_port_is_malformed() {
    for text in ["a:b:port:t", "a:b::t", "a:b:-:t", "a:b:5x:t", "a:b: 5:t", "a:b:99999999999999999999:t"] {
        assert_eq!(
            Lockfile::parse_fields(text),
            Err(LcuDriverError::FailedToReadLockfileToken),
            "{}",
            text
        );
    }
}

#[test]
fn port_at_isize_limits() {
    assert_eq!(
        Lockfile::parse_fields("a:b:9223372036854775807:t"),
        Ok((isize::MAX, "t".to_owned()))
    );
    assert_eq!(
        Lockfile::parse_fields("a:b:-9223372036854775808:t"),
        Ok((isize::MIN, "t".to_owned()))
    );
    assert_eq!(
        Lockfile::parse_fields("a:b:9223372036854775808:t"),
        Err(LcuDriverError::FailedToReadLockfileToken)
    );
}

#[test]
fn token_is_base64_of_credential() {
    let lockfile = Lockfile::from_contents("p".to_owned(), "n:1:2:abc".to_owned()).unwrap();
    assert_eq!(lockfile.token, "cmlvdDphYmM=");
    let empty = Lockfile::from_contents("p".to_owned(), "n:1:2:".to_owned()).unwrap();
    assert_eq!(empty.token, "cmlvdDo=");
}

#[test]
fn unchanged_contents_need_no_reload() {
    let lockfile = Lockfile::from_contents("p".to_owned(), CONTENTS.to_owned()).unwrap();
    assert!(!lockfile.needs_reload(Some(CONTENTS)));
}

#[test]
fn changed_contents_need_reload() {
    let lockfile = Lockfile::from_contents("p".to_owned(), CONTENTS.to_owned()).unwrap();
    assert!(lockfile.needs_reload(Some("LeagueClient:1234:50261:qSxvLaMHgq17mxUKaFfSdg:http")));
    assert!(lockfile.needs_reload(Some("LeagueClient:1235:50261:qSxvLaMHgq17mxUKaFfSdg:https")));
    assert!(lockfile.needs_reload(Some("")));
    assert!(lockfile.needs_reload(None));
}

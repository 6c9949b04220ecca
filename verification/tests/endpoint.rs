use adif_watch::endpoint::{api_path, api_uri, BadUrl};
use adif_watch::status::{exit_status, Fatal};

#[test]
fn path_of_the_api_is_fixed() {
    assert_eq!(api_path(), "api/qso");
}

#[test]
fn base_with_trailing_slash_keeps_its_path() {
    assert_eq!(api_uri("https://log.example.org/"), Ok(String::from("https://log.example.org/api/qso")));
    assert_eq!(
        api_uri("https://example.org/cloudlog/index.php/"),
        Ok(String::from("https://example.org/cloudlog/index.php/api/qso"))
    );
}

#[test]
fn base_without_trailing_slash_loses_its_last_segment() {
    assert_eq!(api_uri("https://log.example.org"), Ok(String::from("https://log.example.org/api/qso")));
    assert_eq!(
        api_uri("https://example.org/cloudlog/index.php"),
        Ok(String::from("https://example.org/cloudlog/api/qso"))
    );
}

#[test]
fn query_of_the_base_is_dropped() {
    assert_eq!(api_uri("http://example.org:8080/a/?x=1#top"), Ok(String::from("http://example.org:8080/a/api/qso")));
}

#[test]
fn text_that_is_no_url_is_refused() {
    assert_eq!(
        api_uri("log.example.org"),
        Err(BadUrl { cause: url::ParseError::RelativeUrlWithoutBase })
    );
    assert_eq!(api_uri(""), Err(BadUrl { cause: url::ParseError::RelativeUrlWithoutBase }));
    assert_eq!(api_uri("https://"), Err(BadUrl { cause: url::ParseError::EmptyHost }));
    assert_eq!(
        api_uri("https://example.org:99999/"),
        Err(BadUrl { cause: url::ParseError::InvalidPort })
    );
}

#[test]
fn base_that_cannot_be_a_base_is_refused() {
    assert_eq!(
        api_uri("mailto:op@example.org"),
        Err(BadUrl { cause: url::ParseError::RelativeUrlWithCannotBeABaseBase })
    );
}

#[test]
fn refused_url_is_a_fault_of_the_configuration() {
    let refused = api_uri("https://").unwrap_err();
    assert_eq!(refused.fatal(), Fatal::BadUrl);
    assert_eq!(exit_status(refused.fatal()), 66);
    assert_eq!(format!("{}", refused.cause), "empty host");
}

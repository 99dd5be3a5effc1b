use helldivers::classify_response;
use helldivers::news_feed_url;
use helldivers::status_url;
use helldivers::war_info_url;
use helldivers::war_time_url;
use helldivers::HelldiversError;
use helldivers::Language;
use helldivers::BASE_URL;

#[test]
fn endpoint_urls() {
    assert_eq!(
        status_url(801),
        "https://api.live.prod.thehelldiversgame.com/api/WarSeason/801/Status"
    );
    assert_eq!(
        war_info_url(801),
        "https://api.live.prod.thehelldiversgame.com/api/WarSeason/801/WarInfo"
    );
    assert_eq!(
        war_time_url(801),
        "https://api.live.prod.thehelldiversgame.com/api/WarSeason/801/WarTime"
    );
    assert_eq!(
        news_feed_url(801),
        "https://api.live.prod.thehelldiversgame.com/api/NewsFeed/801"
    );
    assert_eq!(status_url(-3), format!("{}/WarSeason/-3/Status", BASE_URL));
}

#[test]
fn success_codes_pass() {
    assert!(classify_response(200, "u").is_ok());
    assert!(classify_response(204, "u").is_ok());
    assert!(classify_response(299, "u").is_ok());
}

#[test]
fn bad_request_is_invalid_war_id() {
    let url = status_url(999999);
    match classify_response(400, &url) {
        Err(HelldiversError::InvalidWarId(u)) => assert_eq!(u, url),
        _ => panic!("a 400 must classify as an invalid war id, not a generic API error"),
    }
}

#[test]
fn other_failures_are_api_errors() {
    for code in [300u16, 301, 403, 404, 500, 503] {
        match classify_response(code, "u") {
            Err(HelldiversError::APIError(c)) => assert_eq!(c, code),
            _ => panic!("a non-400 failure must classify as a generic API error"),
        }
    }
}

#[test]
fn error_descriptions() {
    assert_eq!(
        HelldiversError::APIError(503).describe(),
        "API error: 503"
    );
    assert_eq!(
        HelldiversError::InvalidWarId(String::from("someurl")).describe(),
        "Invalid war ID: someurl"
    );
    assert_eq!(
        HelldiversError::RequestError(String::from("timed out")).describe(),
        "Request error: timed out"
    );
    assert_eq!(
        HelldiversError::JsonError(String::from("bad field")).describe(),
        "JSON deserialization error: bad field"
    );
}

#[test]
fn language_tags() {
    assert_eq!(Language::English.to_str(), "en-US");
    assert_eq!(Language::German.to_str(), "de-DE");
    assert_eq!(Language::Spanish.to_str(), "es-ES");
    assert_eq!(Language::Russian.to_str(), "ru-RU");
    assert_eq!(Language::French.to_str(), "fr-FR");
    assert_eq!(Language::Italian.to_str(), "it-IT");
    assert_eq!(Language::Polish.to_str(), "pl-PL");
    assert_eq!(Language::Chinese.to_str(), "zh-Hans");
}

//! The computing half of the fetch layer: endpoint URLs built from a war id,
//! and the classification of an HTTP response before any body is read.
//! The transport itself (one HTTPS GET per call, no retry, no cache) is an
//! external collaborator and stays outside the library.

use vstd::prelude::*;
use crate::error::HelldiversError;
use crate::numbers::i64_dec_str;
use crate::numbers::i64_to_dec_string;
use crate::BASE_URL;

verus! {

/// The URL of the status endpoint of a war.
pub open spec fn status_url_spec(war_id: int) -> Seq<char> {
    BASE_URL@ + "/WarSeason/"@ + i64_dec_str(war_id) + "/Status"@
}

/// The URL of the war-info endpoint of a war.
pub open spec fn war_info_url_spec(war_id: int) -> Seq<char> {
    BASE_URL@ + "/WarSeason/"@ + i64_dec_str(war_id) + "/WarInfo"@
}

/// The URL of the war-time endpoint of a war.
pub open spec fn war_time_url_spec(war_id: int) -> Seq<char> {
    BASE_URL@ + "/WarSeason/"@ + i64_dec_str(war_id) + "/WarTime"@
}

/// The URL of the news-feed endpoint of a war.
pub open spec fn news_feed_url_spec(war_id: int) -> Seq<char> {
    BASE_URL@ + "/NewsFeed/"@ + i64_dec_str(war_id)
}

/// Build the status endpoint URL.
pub fn status_url(war_id: i64) -> (r: String)
    ensures
        r@ == status_url_spec(war_id as int),
{
    let mut s = String::from_str(BASE_URL);
    s.append("/WarSeason/");
    s.append(i64_to_dec_string(war_id).as_str());
    s.append("/Status");
    s
}

/// Build the war-info endpoint URL.
pub fn war_info_url(war_id: i64) -> (r: String)
    ensures
        r@ == war_info_url_spec(war_id as int),
{
    let mut s = String::from_str(BASE_URL);
    s.append("/WarSeason/");
    s.append(i64_to_dec_string(war_id).as_str());
    s.append("/WarInfo");
    s
}

/// Build the war-time endpoint URL.
pub fn war_time_url(war_id: i64) -> (r: String)
    ensures
        r@ == war_time_url_spec(war_id as int),
{
    let mut s = String::from_str(BASE_URL);
    s.append("/WarSeason/");
    s.append(i64_to_dec_string(war_id).as_str());
    s.append("/WarTime");
    s
}

/// Build the news-feed endpoint URL.
pub fn news_feed_url(war_id: i64) -> (r: String)
    ensures
        r@ == news_feed_url_spec(war_id as int),
{
    let mut s = String::from_str(BASE_URL);
    s.append("/NewsFeed/");
    s.append(i64_to_dec_string(war_id).as_str());
    s
}

/// An HTTP success status code.
pub open spec fn is_http_success(code: u16) -> bool {
    200 <= code < 300
}

/// Classify an HTTP response before reading its body: success passes, 400 is
/// an invalid war id carrying the requested URL, and any other non-success
/// status is a generic API error carrying the code.
pub fn classify_response(code: u16, url: &str) -> (r: Result<(), HelldiversError>)
    ensures
        r is Ok <==> is_http_success(code),
        code == 400 ==> (r matches Err(HelldiversError::InvalidWarId(u)) && u@ == url@),
        !is_http_success(code) && code != 400 ==> r == Err::<(), HelldiversError>(
            HelldiversError::APIError(code),
        ),
{
    if 200 <= code && code < 300 {
        Ok(())
    } else if code == 400 {
        Err(HelldiversError::InvalidWarId(String::from_str(url)))
    } else {
        Err(HelldiversError::APIError(code))
    }
}

} // verus!

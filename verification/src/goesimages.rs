//! URL construction for one imagery provider: full-disk GEOCOLOR
//! snapshots served by the GOES CDN, addressed by satellite and by the
//! snapshot's UTC timestamp.

use crate::time::{url_datetime_of, format_url_datetime, TimePoint};
use vstd::prelude::*;

verus! {

/// The two geostationary satellites the provider serves.
#[derive(Clone, Copy, PartialEq, Eq, Structural, Debug)]
pub enum Sat {
    GoesEast,
    GoesWest,
}

/// The path fragment naming `sat` in the provider's URLs.
pub open spec fn url_frag_spec(sat: Sat) -> Seq<char> {
    match sat {
        Sat::GoesEast => "GOES16"@,
        Sat::GoesWest => "GOES18"@,
    }
}

impl Sat {
    /// The provider's name for this satellite.
    pub fn url_frag(&self) -> (r: &'static str)
        ensures
            r@ == url_frag_spec(*self),
    {
        match self {
            Sat::GoesEast => "GOES16",
            Sat::GoesWest => "GOES18",
        }
    }
}

/// The provider URL text for a full-disk GEOCOLOR snapshot of `sat`
/// taken at the instant `t`.
pub open spec fn image_url_chars(sat: Sat, t: int) -> Seq<char> {
    "https://cdn.star.nesdis.noaa.gov/"@ + url_frag_spec(sat) + "/ABI/FD/GEOCOLOR/"@
        + url_datetime_of(t) + "_"@ + url_frag_spec(sat) + "-ABI-FD-GEOCOLOR-1808x1808.jpg"@
}

/// URL construction failed: the assembled text was not a valid URL.
#[derive(PartialEq, Eq, Debug)]
pub struct UrlError {
    pub cause: String,
}

#[verifier::external_type_specification]
#[verifier::external_body]
pub struct ExUrl(url::Url);

/// Whether `url::Url::parse` accepts the text `s`.
pub uninterp spec fn url_parses(s: Seq<char>) -> bool;

/// The URL `url::Url::parse` yields for the text `s`.
pub uninterp spec fn url_of(s: Seq<char>) -> url::Url;

/// Relies on `url::Url::parse`: whether a text parses as an absolute
/// URL, and the URL it then yields, depend on the text alone.
#[verifier::external_body]
fn parse_url_checked(s: &str) -> (r: Result<url::Url, String>)
    ensures
        r is Ok <==> url_parses(s@),
        r matches Ok(u) ==> u == url_of(s@),
{
    url::Url::parse(s).map_err(|e| format!("{}", e))
}

/// Builds the provider URL for a snapshot of `sat` at the instant
/// `time`: succeeds exactly when the assembled text is a valid URL,
/// and then returns the URL parsed out of exactly that text.
pub fn construct_image_url(sat: &Sat, time: &TimePoint) -> (r: Result<url::Url, UrlError>)
    requires
        time.wf(),
    ensures
        r is Ok <==> url_parses(image_url_chars(*sat, time.secs as int)),
        r matches Ok(u) ==> u == url_of(image_url_chars(*sat, time.secs as int)),
{
    let frag = sat.url_frag();
    let dt = format_url_datetime(time);
    let mut s = String::from_str("https://cdn.star.nesdis.noaa.gov/");
    s.append(frag);
    s.append("/ABI/FD/GEOCOLOR/");
    s.append(dt.as_str());
    s.append("_");
    s.append(frag);
    s.append("-ABI-FD-GEOCOLOR-1808x1808.jpg");
    proof {
        assert(s@ =~= image_url_chars(*sat, time.secs as int));
    }
    match parse_url_checked(s.as_str()) {
        Ok(u) => Ok(u),
        Err(cause) => Err(UrlError { cause }),
    }
}

} // verus!

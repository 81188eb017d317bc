//! The scraper as a data source.
//!
//! A scrape fetches pages, which is the caller's work. This file says what
//! the outcome of a scrape is as the outcome of a load.

use crate::datasource::ErrorKind;
use crate::datasource::LoadResult;
use crate::datasource::SourceError;
use crate::datasource::SourceErrorView;
use crate::entities::Lecture;
use crate::entities::StaticDegree;
use crate::scrape::ScrapeError;
use vstd::prelude::*;

verus! {

/// How the failure of a scrape begins.
pub const SCRAPE_FAILED: &'static str = "Could not scrape the lectures: ";

pub const NETWORK_FAILURE: &'static str = "network failure";

pub const PARSE_FAILURE: &'static str = "parse failure";

pub const SHAPE_FAILURE: &'static str = "shape failure";

/// The kind of a scrape failure, in words.
pub open spec fn failure_name(error: ScrapeError) -> Seq<char> {
    match error {
        ScrapeError::Network => NETWORK_FAILURE@,
        ScrapeError::Parse => PARSE_FAILURE@,
        ScrapeError::Shape => SHAPE_FAILURE@,
    }
}

/// The failure of a load from the scraper: of the kind `Upstream`, with the
/// kind of the scrape failure in the message.
pub open spec fn upstream_failure(degree: StaticDegree, error: ScrapeError) -> SourceErrorView {
    SourceErrorView {
        kind: ErrorKind::Upstream,
        degree_id: degree.id@,
        message: SCRAPE_FAILED@ + failure_name(error),
    }
}

/// The failure of a scrape of `degree` as the failure of a load.
pub fn upstream(degree: &StaticDegree, error: ScrapeError) -> (failure: SourceError)
    ensures
        failure@ == upstream_failure(*degree, error),
{
    let name = match error {
        ScrapeError::Network => NETWORK_FAILURE,
        ScrapeError::Parse => PARSE_FAILURE,
        ScrapeError::Shape => SHAPE_FAILURE,
    };
    SourceError::new(ErrorKind::Upstream, degree, SCRAPE_FAILED, name)
}

/// The outcome of a scrape of `degree` as the outcome of a load: the
/// lectures as they are, a failure as a failure of the kind `Upstream`.
pub fn scraped(degree: &StaticDegree, outcome: Result<Vec<Lecture>, ScrapeError>) -> (result:
    LoadResult)
    ensures
        match outcome {
            Ok(lectures) => result == Ok::<Vec<Lecture>, SourceError>(lectures),
            Err(error) => result matches Err(failure) && failure@ == upstream_failure(
                *degree,
                error,
            ),
        },
{
    match outcome {
        Ok(lectures) => Ok(lectures),
        Err(error) => Err(upstream(degree, error)),
    }
}

} // verus!

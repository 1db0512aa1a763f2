//! How a request for the report is answered.
use vstd::prelude::*;

use crate::clock::Clock;
use crate::device::{error_text, SensorError};
use crate::report::{get_temps, report_outcome, report_view};
use crate::sensor::Sensor;

verus! {

/// What to send back for a request.
#[derive(Clone, Debug, PartialEq, Eq)]
pub struct Reply {
    /// The HTTP status code.
    pub status: u16,
    pub body: String,
    /// Whether the body is sent as `application/xml; charset=utf-8`.
    pub xml: bool,
}

/// The one request that is answered with the report: a GET of `/details.xml`.
pub open spec fn is_report_request(is_get: bool, path: Seq<char>) -> bool {
    is_get && path == "/details.xml"@
}

/// Whether a request with this method and path asks for the report.
pub fn asks_for_report(is_get: bool, path: &str) -> (r: bool)
    ensures
        r == is_report_request(is_get, path@),
{
    is_get && String::from_str(path) == String::from_str("/details.xml")
}

/// The reply to a request that asks for nothing this service offers.
pub fn not_found() -> (r: Reply)
    ensures
        r.status == 404,
        r.body@.len() == 0,
        !r.xml,
{
    Reply { status: 404, body: String::new(), xml: false }
}

/// The reply that carries the outcome of making the report.
pub fn report_reply(report: Result<String, SensorError>) -> (r: Reply)
    ensures
        r.xml,
        match report {
            Ok(body) => r.status == 200 && r.body@ == body@,
            Err(e) => r.status == 500 && r.body@ == "Error: "@ + error_text(e),
        },
{
    match report {
        Ok(body) => Reply { status: 200, body, xml: true },
        Err(e) => {
            let mut body = String::from_str("Error: ");
            let text = e.describe();
            body.append(text.as_str());
            Reply { status: 500, body, xml: true }
        },
    }
}

/// Answers a request: the report of the sensors of `S`, stamped by `C`, for
/// a GET of `/details.xml`; 404 with an empty body for anything else.
pub fn respond<C: Clock, S: Sensor>(is_get: bool, path: &str) -> (r: Reply)
    ensures
        !is_report_request(is_get, path@) ==> r.status == 404 && r.body@.len() == 0 && !r.xml,
        is_report_request(is_get, path@) ==> r.xml && exists|
            out: Result<Seq<char>, SensorError>,
        |
            #[trigger] report_outcome::<C, S>(out) && match out {
                Ok(body) => r.status == 200 && r.body@ == body,
                Err(e) => r.status == 500 && r.body@ == "Error: "@ + error_text(e),
            },
{
    if asks_for_report(is_get, path) {
        let report = get_temps::<C, S>();
        let ghost outcome = report_view(report);
        let r = report_reply(report);
        assert(report_outcome::<C, S>(outcome));
        r
    } else {
        not_found()
    }
}

/// Whether the value of the mode flag selects the stand-in sensor source:
/// only `1` does, and an unset flag does not.
pub fn uses_stand_in(flag: Option<&str>) -> (r: bool)
    ensures
        r == (flag is Some && flag->Some_0@ == "1"@),
{
    match flag {
        Some(v) => String::from_str(v) == String::from_str("1"),
        None => false,
    }
}

} // verus!

//! Sources of sensor readings.
use vstd::prelude::*;

use crate::device::SensorError;

verus! {

/// The ids in a listing outcome, as text.
pub open spec fn listing_view(r: Result<Vec<String>, SensorError>) -> Result<Seq<Seq<char>>, SensorError> {
    match r {
        Ok(v) => Ok(v@.map_values(|s: String| s@)),
        Err(e) => Err(e),
    }
}

/// A source of sensor readings: it lists the sensors it can read, and reads
/// one of them in thousandths of a degree Celsius.
///
/// `lists` and `reads` say which outcomes a source may give; a source whose
/// outcomes are not known in advance keeps their default, which allows every
/// outcome.
pub trait Sensor {
    /// Whether `r` is an outcome that listing the sensors may give; unless a
    /// source says otherwise, any outcome.
    open spec fn lists(r: Result<Seq<Seq<char>>, SensorError>) -> bool {
        true
    }

    /// Whether `r` is an outcome that reading the sensor `id` may give; unless
    /// a source says otherwise, any outcome.
    open spec fn reads(id: Seq<char>, r: Result<i32, SensorError>) -> bool {
        true
    }

    fn get_ids() -> (r: Result<Vec<String>, SensorError>)
        ensures
            Self::lists(listing_view(r)),
    ;

    fn get_celcius(id: &String) -> (r: Result<i32, SensorError>)
        ensures
            Self::reads(id@, r),
    ;
}

/// The ids that the stand-in source lists, in order.
pub open spec fn fake_ids() -> Seq<Seq<char>> {
    seq!["id1"@, "id2"@, "id3"@]
}

/// What the stand-in source reads for `id`, in thousandths of a degree Celsius.
pub open spec fn fake_reading(id: Seq<char>) -> Option<int> {
    if id == "id1"@ {
        Some(0)
    } else if id == "id2"@ {
        Some(100_000)
    } else if id == "id3"@ {
        Some(-40_000)
    } else {
        None
    }
}

/// What the stand-in source gives when asked to read `id`.
pub open spec fn fake_result(id: Seq<char>) -> Result<i32, SensorError> {
    match fake_reading(id) {
        Some(v) => Ok(v as i32),
        None => Err(SensorError::UnknownId),
    }
}

/// A stand-in source with three fixed readings: freezing, boiling, and the
/// point where Celsius and Fahrenheit agree.
pub struct FakeSensor {}

impl Sensor for FakeSensor {
    open spec fn lists(r: Result<Seq<Seq<char>>, SensorError>) -> bool {
        r == Ok::<Seq<Seq<char>>, SensorError>(fake_ids())
    }

    open spec fn reads(id: Seq<char>, r: Result<i32, SensorError>) -> bool {
        r == fake_result(id)
    }

    fn get_ids() -> (r: Result<Vec<String>, SensorError>)
        ensures
            r is Ok,
            r->Ok_0@.map_values(|s: String| s@) == fake_ids(),
    {
        let ids = vec![String::from_str("id1"), String::from_str("id2"), String::from_str("id3")];
        assert(ids@.map_values(|s: String| s@) =~= fake_ids());
        Ok(ids)
    }

    fn get_celcius(id: &String) -> (r: Result<i32, SensorError>)
        ensures
            match fake_reading(id@) {
                Some(v) => r == Ok::<i32, SensorError>(v as i32),
                None => r == Err::<i32, SensorError>(SensorError::UnknownId),
            },
    {
        if *id == String::from_str("id1") {
            Ok(0)
        } else if *id == String::from_str("id2") {
            Ok(100_000)
        } else if *id == String::from_str("id3") {
            Ok(-40_000)
        } else {
            Err(SensorError::UnknownId)
        }
    }
}

} // verus!

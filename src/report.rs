//! The XML report that lists every sensor with its temperature.
use vstd::prelude::*;

use crate::clock::{push_timestamp, timestamp_text, Clock, Timestamp};
use crate::device::SensorError;
use crate::sensor::{fake_ids, FakeSensor, Sensor};
use crate::text::{one_decimal, push_one_decimal, push_str};

verus! {

/// One sensor's temperature, in thousandths of a degree Celsius.
#[derive(Clone, Debug, PartialEq, Eq)]
pub struct Reading {
    pub id: String,
    pub millis: i32,
}

impl View for Reading {
    type V = (Seq<char>, int);

    open spec fn view(&self) -> (Seq<char>, int) {
        (self.id@, self.millis as int)
    }
}

/// Degrees Celsius with one decimal place, for a reading of `m` thousandths.
pub open spec fn celsius_text(m: int) -> Seq<char> {
    one_decimal(m, 100)
}

/// Degrees Fahrenheit (Celsius times 9/5, plus 32) with one decimal place, for
/// a reading of `m` thousandths of a degree Celsius.
pub open spec fn fahrenheit_text(m: int) -> Seq<char> {
    one_decimal(9 * m + 160_000, 500)
}

/// The `<owd>` element of one sensor.
pub open spec fn record_text(id: Seq<char>, m: int) -> Seq<char> {
    "<owd>\n"@ + "<Name>DS18B20</Name>\n"@ + "<ROMId>"@ + id + "</ROMId>\n"@ + "<Temperature>"@
        + celsius_text(m) + "</Temperature>\n"@ + "<TemperatureF>"@ + fahrenheit_text(m)
        + "</TemperatureF>\n"@ + "</owd>\n"@
}

/// The elements of all the readings, in their order.
pub open spec fn records_text(rs: Seq<(Seq<char>, int)>) -> Seq<char>
    decreases rs.len(),
{
    if rs.len() == 0 {
        Seq::empty()
    } else {
        records_text(rs.drop_last()) + record_text(rs.last().0, rs.last().1)
    }
}

/// The whole report: a root element stamped with the time, around one element
/// per reading.
pub open spec fn report_text(t: Timestamp, rs: Seq<(Seq<char>, int)>) -> Seq<char> {
    "<a updated='"@ + timestamp_text(t) + "'>\n"@ + records_text(rs) + "</a>\n"@
}

pub open spec fn readings_view(rs: Seq<Reading>) -> Seq<(Seq<char>, int)> {
    rs.map_values(|r: Reading| r@)
}

/// Degrees Celsius with one decimal place.
pub fn format_celsius(millis: i32) -> (r: String)
    ensures
        r@ == celsius_text(millis as int),
{
    let mut s = String::new();
    push_one_decimal(&mut s, millis as i64, 100);
    assert(s@ =~= celsius_text(millis as int));
    s
}

/// Degrees Fahrenheit with one decimal place.
pub fn format_fahrenheit(millis: i32) -> (r: String)
    ensures
        r@ == fahrenheit_text(millis as int),
{
    let mut s = String::new();
    push_one_decimal(&mut s, 9 * (millis as i64) + 160_000, 500);
    assert(s@ =~= fahrenheit_text(millis as int));
    s
}

fn push_record(s: &mut String, r: &Reading)
    ensures
        final(s)@ == old(s)@ + record_text(r.id@, r.millis as int),
{
    let ghost s0 = s@;
    push_str(s, "<owd>\n");
    push_str(s, "<Name>DS18B20</Name>\n");
    push_str(s, "<ROMId>");
    push_str(s, r.id.as_str());
    push_str(s, "</ROMId>\n");
    push_str(s, "<Temperature>");
    push_one_decimal(s, r.millis as i64, 100);
    push_str(s, "</Temperature>\n");
    push_str(s, "<TemperatureF>");
    push_one_decimal(s, 9 * (r.millis as i64) + 160_000, 500);
    push_str(s, "</TemperatureF>\n");
    push_str(s, "</owd>\n");
    assert(s@ =~= s0 + record_text(r.id@, r.millis as int));
}

/// The report for `readings`, stamped with `t`.
pub fn render_report(t: &Timestamp, readings: &Vec<Reading>) -> (r: String)
    ensures
        r@ == report_text(*t, readings_view(readings@)),
{
    let mut s = String::new();
    push_str(&mut s, "<a updated='");
    push_timestamp(&mut s, t);
    push_str(&mut s, "'>\n");
    let ghost head = s@;
    let mut i: usize = 0;
    while i < readings.len()
        invariant
            i <= readings@.len(),
            s@ == head + records_text(readings_view(readings@.take(i as int))),
        decreases readings@.len() - i,
    {
        push_record(&mut s, &readings[i]);
        proof {
            let rs = readings_view(readings@.take(i as int + 1));
            assert(rs.drop_last() =~= readings_view(readings@.take(i as int)));
            assert(rs.last() == readings@[i as int]@);
        }
        i = i + 1;
    }
    assert(readings@.take(i as int) =~= readings@);
    push_str(&mut s, "</a>\n");
    assert(s@ =~= report_text(*t, readings_view(readings@)));
    s
}

/// The text of each string of `v`.
pub open spec fn texts(v: Seq<String>) -> Seq<Seq<char>> {
    v.map_values(|s: String| s@)
}

/// `rs` holds, for each id of `ids` in order, a reading that `S` may give for it.
pub open spec fn readings_of<S: Sensor>(ids: Seq<Seq<char>>, rs: Seq<(Seq<char>, int)>) -> bool {
    &&& rs.len() == ids.len()
    &&& forall|k: int|
        0 <= k < rs.len() ==> {
            &&& (#[trigger] rs[k]).0 == ids[k]
            &&& i32::MIN <= rs[k].1 <= i32::MAX
            &&& S::reads(ids[k], Ok(rs[k].1 as i32))
        }
}

/// Reading the sensors of `ids` in order through `S` may stop at the `k`-th
/// with `e`: the ones before it may all be read, and it may fail with `e`.
pub open spec fn fails_at<S: Sensor>(ids: Seq<Seq<char>>, k: int, e: SensorError) -> bool {
    &&& 0 <= k < ids.len()
    &&& S::reads(ids[k], Err(e))
    &&& forall|j: int| 0 <= j < k ==> #[trigger] readable::<S>(ids[j])
}

/// Some reading of the sensor `id` through `S` may succeed.
pub open spec fn readable<S: Sensor>(id: Seq<char>) -> bool {
    exists|m: i32| S::reads(id, Ok(m))
}

/// The outcomes that making the report may have with clock `C` and sensors `S`:
/// the report of a time that `C` may give and of readings of a listing that `S`
/// may give; or the error of the listing; or the error of the first read that
/// fails.
pub open spec fn report_outcome<C: Clock, S: Sensor>(r: Result<Seq<char>, SensorError>) -> bool {
    match r {
        Ok(body) => exists|t: Timestamp, ids: Seq<Seq<char>>, rs: Seq<(Seq<char>, int)>|
            {
                &&& C::stamp_ok(t)
                &&& S::lists(Ok(ids))
                &&& #[trigger] readings_of::<S>(ids, rs)
                &&& body == #[trigger] report_text(t, rs)
            },
        Err(e) => S::lists(Err(e)) || exists|ids: Seq<Seq<char>>, k: int|
            S::lists(Ok(ids)) && #[trigger] fails_at::<S>(ids, k, e),
    }
}

/// The text of a report outcome.
pub open spec fn report_view(r: Result<String, SensorError>) -> Result<Seq<char>, SensorError> {
    match r {
        Ok(s) => Ok(s@),
        Err(e) => Err(e),
    }
}

/// Reads every sensor of `ids` through `S`, in order; the first failure ends
/// the work and is returned.
pub fn read_all<S: Sensor>(ids: &Vec<String>) -> (r: Result<Vec<Reading>, SensorError>)
    ensures
        ids@.len() == 0 ==> r is Ok && r->Ok_0@.len() == 0,
        r is Ok ==> readings_of::<S>(texts(ids@), readings_view(r->Ok_0@)),
        r is Err ==> exists|k: int| #[trigger] fails_at::<S>(texts(ids@), k, r->Err_0),
{
    let ghost idv = texts(ids@);
    let mut readings: Vec<Reading> = Vec::new();
    let mut i: usize = 0;
    while i < ids.len()
        invariant
            i <= ids@.len(),
            idv == texts(ids@),
            readings_of::<S>(idv.take(i as int), readings_view(readings@)),
        decreases ids@.len() - i,
    {
        let id = &ids[i];
        assert(idv[i as int] == id@);
        match S::get_celcius(id) {
            Ok(millis) => {
                let ghost before = readings_view(readings@);
                let cid = id.clone();
                readings.push(Reading { id: cid, millis });
                assert(readings_view(readings@) =~= before.push((cid@, millis as int)));
                assert(idv.take(i as int + 1) =~= idv.take(i as int).push(idv[i as int]));
            },
            Err(e) => {
                proof {
                    let rv = readings_view(readings@);
                    assert forall|j: int| 0 <= j < i implies #[trigger] readable::<S>(idv[j]) by {
                        assert(idv.take(i as int)[j] == idv[j]);
                        assert(rv[j].0 == idv.take(i as int)[j]);
                        assert(S::reads(idv[j], Ok(rv[j].1 as i32)));
                    }
                    assert(fails_at::<S>(idv, i as int, e));
                }
                let ghost failure = e;
                let r: Result<Vec<Reading>, SensorError> = Err(e);
                assert(r->Err_0 == failure);
                assert(fails_at::<S>(texts(ids@), i as int, r->Err_0));
                return r;
            },
        }
        i = i + 1;
    }
    assert(idv.take(i as int) =~= idv);
    Ok(readings)
}

/// The report of every sensor that `S` lists, stamped with the time from `C`.
/// Any failure to list or to read a sensor fails the whole report.
pub fn get_temps<C: Clock, S: Sensor>() -> (r: Result<String, SensorError>)
    ensures
        report_outcome::<C, S>(report_view(r)),
{
    let now = C::now_local();
    let ids = match S::get_ids() {
        Ok(ids) => ids,
        Err(e) => {
            return Err(e);
        },
    };
    let ghost idv = texts(ids@);
    assert(S::lists(Ok(idv)));
    match read_all::<S>(&ids) {
        Ok(readings) => {
            let body = render_report(&now, &readings);
            assert(readings_of::<S>(idv, readings_view(readings@)));
            Ok(body)
        },
        Err(e) => {
            let ghost k = choose|k: int| fails_at::<S>(idv, k, e);
            assert(fails_at::<S>(idv, k, e));
            Err(e)
        },
    }
}

/// Records are written one after another: the elements of two runs of
/// readings, one after the other, are those of the two runs joined.
pub proof fn lemma_records_in_order(a: Seq<(Seq<char>, int)>, b: Seq<(Seq<char>, int)>)
    ensures
        records_text(a + b) == records_text(a) + records_text(b),
    decreases b.len(),
{
    if b.len() == 0 {
        assert(a + b =~= a);
        assert(records_text(a) + records_text(b) =~= records_text(a));
    } else {
        lemma_records_in_order(a, b.drop_last());
        assert((a + b).drop_last() =~= a + b.drop_last());
        assert(records_text(a + b) =~= records_text(a) + records_text(b));
    }
}

/// The readings of the stand-in source, in the order it lists them.
pub open spec fn fake_rows() -> Seq<(Seq<char>, int)> {
    seq![("id1"@, 0), ("id2"@, 100_000), ("id3"@, -40_000)]
}

/// With the stand-in source, making the report never fails, and the report
/// holds its three readings in order, stamped with a time that the clock may
/// give.
pub proof fn lemma_stand_in_report<C: Clock>(r: Result<Seq<char>, SensorError>)
    requires
        report_outcome::<C, FakeSensor>(r),
    ensures
        r is Ok,
        exists|t: Timestamp| C::stamp_ok(t) && r->Ok_0 == #[trigger] report_text(t, fake_rows()),
{
    reveal_strlit("id1");
    reveal_strlit("id2");
    reveal_strlit("id3");
    assert("id2"@ != "id1"@) by {
        assert("id2"@[2] != "id1"@[2]);
    }
    assert("id3"@ != "id1"@ && "id3"@ != "id2"@) by {
        assert("id3"@[2] != "id1"@[2]);
        assert("id3"@[2] != "id2"@[2]);
    }
    match r {
        Ok(body) => {
            let (t, ids, rs) = choose|t: Timestamp, ids: Seq<Seq<char>>, rs: Seq<(Seq<char>, int)>|
                {
                    &&& C::stamp_ok(t)
                    &&& FakeSensor::lists(Ok(ids))
                    &&& #[trigger] readings_of::<FakeSensor>(ids, rs)
                    &&& body == #[trigger] report_text(t, rs)
                };
            assert(ids == fake_ids());
            assert(ids[0] == "id1"@ && ids[1] == "id2"@ && ids[2] == "id3"@);
            assert(rs[0] == ("id1"@, 0int));
            assert(rs[1] == ("id2"@, 100_000int));
            assert(rs[2] == ("id3"@, -40_000int));
            assert(rs =~= fake_rows());
        },
        Err(e) => {
            if !FakeSensor::lists(Err(e)) {
                let (ids, k) = choose|ids: Seq<Seq<char>>, k: int|
                    FakeSensor::lists(Ok(ids)) && #[trigger] fails_at::<FakeSensor>(ids, k, e);
                assert(ids == fake_ids());
                assert(ids[k] == fake_ids()[k]);
            }
        },
    }
}

} // verus!

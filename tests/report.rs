use w1_temps::{
    asks_for_report, device_path, format_celsius, format_fahrenheit, format_timestamp, get_temps,
    not_found, parse_device_file, parse_ids, read_all, render_report, report_reply, respond,
    uses_stand_in, Clock, FakeSensor, FixedClock, ParseFailure, RealClock, Reading, Sensor, SensorError,
    Timestamp,
};

struct TwoSensors {}

impl Sensor for TwoSensors {
    fn get_ids() -> Result<Vec<String>, SensorError> {
        Ok(vec!["a".to_string(), "b".to_string()])
    }

    fn get_celcius(id: &String) -> Result<i32, SensorError> {
        if id == "a" {
            Ok(21_500)
        } else {
            Ok(-1_250)
        }
    }
}

struct SecondFails {}

impl Sensor for SecondFails {
    fn get_ids() -> Result<Vec<String>, SensorError> {
        Ok(vec!["a".to_string(), "b".to_string(), "c".to_string()])
    }

    fn get_celcius(id: &String) -> Result<i32, SensorError> {
        if id == "a" {
            Ok(1_000)
        } else if id == "b" {
            Err(SensorError::Access("No such device".to_string()))
        } else {
            panic!("a sensor after the failing one was read")
        }
    }
}

struct NoList {}

impl Sensor for NoList {
    fn get_ids() -> Result<Vec<String>, SensorError> {
        Err(SensorError::Access("list unavailable".to_string()))
    }

    fn get_celcius(_id: &String) -> Result<i32, SensorError> {
        panic!("nothing to read")
    }
}

const EXPECTED: &str = "<a updated='2020-01-01 00-00'>\n<owd>\n<Name>DS18B20</Name>\n<ROMId>id1</ROMId>\n<Temperature>0.0</Temperature>\n<TemperatureF>32.0</TemperatureF>\n</owd>\n<owd>\n<Name>DS18B20</Name>\n<ROMId>id2</ROMId>\n<Temperature>100.0</Temperature>\n<TemperatureF>212.0</TemperatureF>\n</owd>\n<owd>\n<Name>DS18B20</Name>\n<ROMId>id3</ROMId>\n<Temperature>-40.0</Temperature>\n<TemperatureF>-40.0</TemperatureF>\n</owd>\n</a>\n";

#[test]
fn format_temps() {
    assert_eq!(EXPECTED, &get_temps::<FixedClock, FakeSensor>().unwrap());
}

#[test]
fn stand_in_readings_and_conversions() {
    let cases = [("id1", 0, "0.0", "32.0"), ("id2", 100_000, "100.0", "212.0"), ("id3", -40_000, "-40.0", "-40.0")];
    for (id, millis, c, f) in cases {
        assert_eq!(FakeSensor::get_celcius(&id.to_string()), Ok(millis));
        assert_eq!(format_celsius(millis), c);
        assert_eq!(format_fahrenheit(millis), f);
    }
}

#[test]
fn stand_in_lists_three_ids() {
    assert_eq!(FakeSensor::get_ids().unwrap(), vec!["id1", "id2", "id3"]);
}

#[test]
fn stand_in_refuses_other_ids() {
    assert_eq!(FakeSensor::get_celcius(&"id4".to_string()), Err(SensorError::UnknownId));
}

#[test]
fn one_decimal_rounding() {
    assert_eq!(format_celsius(23_125), "23.1");
    assert_eq!(format_fahrenheit(23_125), "73.6");
    assert_eq!(format_celsius(23_150), "23.2");
    assert_eq!(format_celsius(-1_250), "-1.2");
    assert_eq!(format_fahrenheit(-1_250), "29.8");
    assert_eq!(format_celsius(250), "0.2");
    assert_eq!(format_celsius(750), "0.8");
    assert_eq!(format_celsius(-40), "-0.0");
    assert_eq!(format_celsius(85_000), "85.0");
    assert_eq!(format_fahrenheit(85_000), "185.0");
    assert_eq!(format_celsius(i32::MIN), "-2147483.6");
}

#[test]
fn typical_device_file() {
    let text = "72 01 4b 46 7f ff 0e 10 57 : crc=57 YES\n72 01 4b 46 7f ff 0e 10 57 t=23125\n";
    assert_eq!(parse_device_file(text), Ok(23_125));
}

#[test]
fn data_line_without_equals() {
    let text = "72 01 4b 46 7f ff 0e 10 57 : crc=57 YES\n72 01 4b 46 7f ff 0e 10 57 t23125\n";
    assert_eq!(parse_device_file(text), Err(SensorError::Parse(ParseFailure::MissingEquals)));
}

#[test]
fn non_numeric_token() {
    assert_eq!(parse_device_file("crc=00 YES\nt=abc\n"), Err(SensorError::Parse(ParseFailure::BadInteger)));
    assert_eq!(parse_device_file("crc=00 YES\nt=\n"), Err(SensorError::Parse(ParseFailure::BadInteger)));
    assert_eq!(parse_device_file("crc=00 YES\nt=-\n"), Err(SensorError::Parse(ParseFailure::BadInteger)));
    assert_eq!(parse_device_file("crc=00 YES\nt= 12\n"), Err(SensorError::Parse(ParseFailure::BadInteger)));
    assert_eq!(parse_device_file("crc=00 YES\nt=2147483648\n"), Err(SensorError::Parse(ParseFailure::BadInteger)));
}

#[test]
fn missing_lines() {
    assert_eq!(parse_device_file(""), Err(SensorError::Parse(ParseFailure::MissingStatusLine)));
    assert_eq!(parse_device_file("crc=00 YES\n"), Err(SensorError::Parse(ParseFailure::MissingDataLine)));
    assert_eq!(parse_device_file("crc=00 YES"), Err(SensorError::Parse(ParseFailure::MissingDataLine)));
    assert_eq!(parse_device_file("crc=00 YES\n\n"), Err(SensorError::Parse(ParseFailure::MissingEquals)));
}

#[test]
fn integer_edge_cases() {
    assert_eq!(parse_device_file("crc\nt=-2147483648"), Ok(i32::MIN));
    assert_eq!(parse_device_file("crc\nt=+7\r\n"), Ok(7));
    assert_eq!(parse_device_file("crc\na=1=-62\nignored"), Ok(-62));
    assert_eq!(parse_device_file("crc\nt=0005"), Ok(5));
}

#[test]
fn device_list_lines() {
    assert_eq!(parse_ids("28-01\n\n28-02\r\n28-03"), vec!["28-01", "28-02", "28-03"]);
    assert!(parse_ids("").is_empty());
    assert!(parse_ids("\n\n").is_empty());
}

#[test]
fn timestamp_text() {
    let t = Timestamp { year: 2024, month: 12, day: 31, hour: 23, minute: 59 };
    assert_eq!(format_timestamp(&t), "2024-12-31 23-59");
    let t = Timestamp { year: 5, month: 3, day: 4, hour: 7, minute: 8 };
    assert_eq!(format_timestamp(&t), "0005-03-04 07-08");
    let t = Timestamp { year: -12, month: 1, day: 1, hour: 0, minute: 0 };
    assert_eq!(format_timestamp(&t), "-0012-01-01 00-00");
}

#[test]
fn real_clock_fields_in_range() {
    let t = RealClock::now_local();
    assert!((1..=12).contains(&t.month));
    assert!((1..=31).contains(&t.day));
    assert!(t.hour < 24 && t.minute < 60);
}

#[test]
fn empty_report() {
    let t = FixedClock::now_local();
    assert_eq!(render_report(&t, &vec![]), "<a updated='2020-01-01 00-00'>\n</a>\n");
}

#[test]
fn report_of_given_readings() {
    let t = FixedClock::now_local();
    let readings = vec![Reading { id: "x".to_string(), millis: -1_250 }];
    assert_eq!(
        render_report(&t, &readings),
        "<a updated='2020-01-01 00-00'>\n<owd>\n<Name>DS18B20</Name>\n<ROMId>x</ROMId>\n<Temperature>-1.2</Temperature>\n<TemperatureF>29.8</TemperatureF>\n</owd>\n</a>\n"
    );
}

#[test]
fn enumeration_order_is_kept() {
    let body = get_temps::<FixedClock, TwoSensors>().unwrap();
    let a = body.find("<ROMId>a</ROMId>").unwrap();
    let b = body.find("<ROMId>b</ROMId>").unwrap();
    assert!(a < b);
    assert_eq!(body.matches("<owd>").count(), 2);
    let readings = read_all::<TwoSensors>(&vec!["b".to_string(), "a".to_string()]).unwrap();
    assert_eq!(readings[0], Reading { id: "b".to_string(), millis: -1_250 });
    assert_eq!(readings[1], Reading { id: "a".to_string(), millis: 21_500 });
}

#[test]
fn other_routes_are_not_found() {
    let r = respond::<FixedClock, FakeSensor>(true, "/other");
    assert_eq!((r.status, r.body.as_str(), r.xml), (404, "", false));
    let r = respond::<FixedClock, FakeSensor>(false, "/details.xml");
    assert_eq!((r.status, r.body.as_str(), r.xml), (404, "", false));
    assert!(!asks_for_report(true, "/details.xml/"));
    assert!(asks_for_report(true, "/details.xml"));
    assert_eq!(not_found().status, 404);
}

#[test]
fn report_route_answers_with_report() {
    let r = respond::<FixedClock, FakeSensor>(true, "/details.xml");
    assert_eq!(r.status, 200);
    assert!(r.xml);
    assert_eq!(r.body, EXPECTED);
}

#[test]
fn failed_second_read_fails_whole_report() {
    let r = respond::<FixedClock, SecondFails>(true, "/details.xml");
    assert_eq!(r.status, 500);
    assert!(!r.body.contains("<owd>"));
    assert_eq!(r.body, "Error: No such device");
    assert!(get_temps::<FixedClock, SecondFails>().is_err());
}

#[test]
fn failed_listing_fails_report() {
    let r = respond::<FixedClock, NoList>(true, "/details.xml");
    assert_eq!((r.status, r.body.as_str()), (500, "Error: list unavailable"));
}

#[test]
fn error_replies_describe_the_error() {
    let r = report_reply(Err(SensorError::Parse(ParseFailure::MissingDataLine)));
    assert_eq!((r.status, r.body.as_str()), (500, "Error: missing data line"));
    assert_eq!(SensorError::Parse(ParseFailure::MissingEquals).describe(), "missing = in data line");
    assert_eq!(SensorError::Parse(ParseFailure::BadInteger).describe(), "invalid integer after =");
    assert_eq!(SensorError::Parse(ParseFailure::MissingStatusLine).describe(), "missing crc line");
    assert_eq!(SensorError::UnknownId.describe(), "unknown sensor id");
    let r = report_reply(Ok("<a/>".to_string()));
    assert_eq!((r.status, r.body.as_str(), r.xml), (200, "<a/>", true));
}

#[test]
fn mode_flag() {
    assert!(uses_stand_in(Some("1")));
    assert!(!uses_stand_in(Some("0")));
    assert!(!uses_stand_in(Some("1 ")));
    assert!(!uses_stand_in(None));
}

#[test]
fn device_file_path() {
    assert_eq!(device_path("28-0001"), "/sys/bus/w1/devices/28-0001/w1_slave");
}

struct NoSensors {}

impl Sensor for NoSensors {
    fn get_ids() -> Result<Vec<String>, SensorError> {
        Ok(vec![])
    }

    fn get_celcius(_id: &String) -> Result<i32, SensorError> {
        panic!("no sensor to read")
    }
}

#[test]
fn empty_device_list_gives_empty_report() {
    assert_eq!(get_temps::<FixedClock, NoSensors>().unwrap(), "<a updated='2020-01-01 00-00'>\n</a>\n");
    assert_eq!(read_all::<NoSensors>(&vec![]), Ok(vec![]));
}

#[test]
fn stand_in_report_with_real_clock() {
    let body = get_temps::<RealClock, FakeSensor>().unwrap();
    assert!(body.starts_with("<a updated='"));
    assert!(body.ends_with(&EXPECTED["<a updated='2020-01-01 00-00'>\n".len()..]));
}

#[test]
fn fixed_clock_time() {
    assert_eq!(format_timestamp(&FixedClock::now_local()), "2020-01-01 00-00");
}

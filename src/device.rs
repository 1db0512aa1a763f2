//! The text files through which the kernel exposes one-wire sensors.
use vstd::prelude::*;

use crate::text::push_str;

verus! {

/// Why the content of a sensor file was not understood.
#[derive(Clone, Copy, Debug, PartialEq, Eq)]
pub enum ParseFailure {
    /// The file is empty: not even the status line is there.
    MissingStatusLine,
    /// The file has no second line.
    MissingDataLine,
    /// The data line holds no `=`.
    MissingEquals,
    /// What follows the last `=` is not a signed decimal integer that fits in 32 bits.
    BadInteger,
}

/// Why a sensor could not be listed or read.
#[derive(Clone, Debug, PartialEq, Eq)]
pub enum SensorError {
    /// A file could not be opened or read; the message comes from the system.
    Access(String),
    /// A file was read but its content does not have the expected shape.
    Parse(ParseFailure),
    /// A sensor source was asked for an id that it never lists.
    UnknownId,
}

/// The description of an error that a failed report shows.
pub open spec fn error_text(e: SensorError) -> Seq<char> {
    match e {
        SensorError::Access(m) => m@,
        SensorError::Parse(ParseFailure::MissingStatusLine) => "missing crc line"@,
        SensorError::Parse(ParseFailure::MissingDataLine) => "missing data line"@,
        SensorError::Parse(ParseFailure::MissingEquals) => "missing = in data line"@,
        SensorError::Parse(ParseFailure::BadInteger) => "invalid integer after ="@,
        SensorError::UnknownId => "unknown sensor id"@,
    }
}

impl SensorError {
    /// A description of the error for people.
    pub fn describe(&self) -> (r: String)
        ensures
            r@ == error_text(*self),
    {
        match self {
            SensorError::Access(m) => m.clone(),
            SensorError::Parse(ParseFailure::MissingStatusLine) => String::from_str("missing crc line"),
            SensorError::Parse(ParseFailure::MissingDataLine) => String::from_str("missing data line"),
            SensorError::Parse(ParseFailure::MissingEquals) => String::from_str("missing = in data line"),
            SensorError::Parse(ParseFailure::BadInteger) => String::from_str("invalid integer after ="),
            SensorError::UnknownId => String::from_str("unknown sensor id"),
        }
    }
}

/// The data file of the sensor `id`.
pub open spec fn device_path_text(id: Seq<char>) -> Seq<char> {
    "/sys/bus/w1/devices/"@ + id + "/w1_slave"@
}

/// Where the kernel exposes the data file of the sensor `id`.
pub fn device_path(id: &str) -> (r: String)
    ensures
        r@ == device_path_text(id@),
{
    let mut s = String::from_str("/sys/bus/w1/devices/");
    push_str(&mut s, id);
    push_str(&mut s, "/w1_slave");
    s
}

/// Index of the first `c` in `t` at or after `i`, or `t.len()` when there is none.
pub open spec fn find_from(t: Seq<char>, c: char, i: int) -> int
    decreases t.len() - i,
{
    if i >= t.len() {
        t.len() as int
    } else if t[i] == c {
        i
    } else {
        find_from(t, c, i + 1)
    }
}

proof fn lemma_find_from_bounds(t: Seq<char>, c: char, i: int)
    requires
        0 <= i <= t.len(),
    ensures
        i <= find_from(t, c, i) <= t.len(),
        find_from(t, c, i) < t.len() ==> t[find_from(t, c, i)] == c,
        forall|k: int| i <= k < find_from(t, c, i) ==> t[k] != c,
    decreases t.len() - i,
{
    if i < t.len() && t[i] != c {
        lemma_find_from_bounds(t, c, i + 1);
    }
}

/// `l` without one trailing carriage return.
pub open spec fn strip_cr(l: Seq<char>) -> Seq<char> {
    if l.len() > 0 && l.last() == '\r' {
        l.drop_last()
    } else {
        l
    }
}

/// The lines of `t` from index `i` on: split at each `\n`, with a trailing
/// `\r` removed from each line; text after the last `\n` is a line if it is
/// not empty.
pub open spec fn lines_from(t: Seq<char>, i: int) -> Seq<Seq<char>>
    decreases t.len() + 1 - i,
    when 0 <= i
    via lines_from_decreases
{
    if i >= t.len() {
        Seq::empty()
    } else {
        let e = find_from(t, '\n', i);
        seq![strip_cr(t.subrange(i, e))] + lines_from(t, e + 1)
    }
}

#[via_fn]
proof fn lines_from_decreases(t: Seq<char>, i: int) {
    if 0 <= i < t.len() {
        lemma_find_from_bounds(t, '\n', i);
        let e = find_from(t, '\n', i);
        assert(0 <= e + 1);
        assert(0 <= t.len() + 1 - (e + 1) < t.len() + 1 - i);
    }
}

/// The lines of `t`.
pub open spec fn lines(t: Seq<char>) -> Seq<Seq<char>> {
    lines_from(t, 0)
}

/// The sensor ids that a device list names: its non-empty lines, in order.
pub open spec fn listed_ids(t: Seq<char>) -> Seq<Seq<char>> {
    lines(t).filter(|l: Seq<char>| l.len() > 0)
}

/// Index of the last `c` in `l` before index `j`, or -1 when there is none.
pub open spec fn rfind_before(l: Seq<char>, c: char, j: int) -> int
    decreases j,
{
    if j <= 0 {
        -1
    } else if l[j - 1] == c {
        j - 1
    } else {
        rfind_before(l, c, j - 1)
    }
}

pub open spec fn is_digit(c: char) -> bool {
    '0' <= c <= '9'
}

/// The value of a string of decimal digits.
pub open spec fn digits_value(s: Seq<char>) -> int
    decreases s.len(),
{
    if s.len() == 0 {
        0
    } else {
        digits_value(s.drop_last()) * 10 + ((s.last() as u32) as int - ('0' as u32) as int)
    }
}

/// `s` without a leading sign.
pub open spec fn unsigned_part(s: Seq<char>) -> Seq<char> {
    if s.len() > 0 && (s[0] == '-' || s[0] == '+') {
        s.drop_first()
    } else {
        s
    }
}

/// `d` is one or more decimal digits.
pub open spec fn all_digits(d: Seq<char>) -> bool {
    d.len() > 0 && forall|i: int| 0 <= i < d.len() ==> is_digit(d[i])
}

/// The value of an optional `+` or `-` followed by one or more decimal digits,
/// when it fits in an `i32`.
pub open spec fn decimal_i32(s: Seq<char>) -> Option<int> {
    let d = unsigned_part(s);
    let value = if s.len() > 0 && s[0] == '-' { -digits_value(d) } else { digits_value(d) };
    if all_digits(d) && i32::MIN <= value <= i32::MAX {
        Some(value)
    } else {
        None
    }
}

/// The reading, in thousandths of a degree Celsius, that a sensor's data file
/// holds: the file's second line must hold an `=`, and what follows the last
/// `=` on it must be a signed decimal integer.  The first line is not looked at.
pub open spec fn device_reading(t: Seq<char>) -> Result<int, ParseFailure> {
    let ls = lines(t);
    if ls.len() == 0 {
        Err(ParseFailure::MissingStatusLine)
    } else if ls.len() == 1 {
        Err(ParseFailure::MissingDataLine)
    } else {
        let l = ls[1];
        let k = rfind_before(l, '=', l.len() as int);
        if k < 0 {
            Err(ParseFailure::MissingEquals)
        } else {
            match decimal_i32(l.subrange(k + 1, l.len() as int)) {
                Some(v) => Ok(v),
                None => Err(ParseFailure::BadInteger),
            }
        }
    }
}

/// Relies on i32::from_str_radix with radix 10, which accepts an optional `+`
/// or `-` followed by one or more ASCII digits whose value fits in an `i32`,
/// and refuses everything else.
#[verifier::external_body]
fn parse_i32(s: &str) -> (r: Option<i32>)
    ensures
        match r {
            Some(v) => decimal_i32(s@) == Some(v as int),
            None => decimal_i32(s@) is None,
        },
{
    i32::from_str_radix(s, 10).ok()
}

fn find_newline(text: &str, len: usize, i: usize) -> (e: usize)
    requires
        len == text@.len(),
        i <= len,
    ensures
        e as int == find_from(text@, '\n', i as int),
        i <= e <= len,
{
    let mut j: usize = i;
    while j < len
        invariant
            i <= j <= len,
            len == text@.len(),
            find_from(text@, '\n', i as int) == find_from(text@, '\n', j as int),
        decreases len - j,
    {
        if text.get_char(j) == '\n' {
            return j;
        }
        j = j + 1;
    }
    j
}

fn line_text(text: &str, start: usize, end: usize) -> (r: String)
    requires
        start <= end <= text@.len(),
    ensures
        r@ == strip_cr(text@.subrange(start as int, end as int)),
{
    let stop: usize = if end > start && text.get_char(end - 1) == '\r' {
        end - 1
    } else {
        end
    };
    let r = String::from_str(text.substring_char(start, stop));
    assert(r@ =~= strip_cr(text@.subrange(start as int, end as int)));
    r
}

/// The sensor ids named by the content of a device list.
pub fn parse_ids(text: &str) -> (r: Vec<String>)
    ensures
        r@.map_values(|s: String| s@) == listed_ids(text@),
{
    let len = text.unicode_len();
    let ghost t = text@;
    let ghost keep = |l: Seq<char>| l.len() > 0;
    let mut ids: Vec<String> = Vec::new();
    let mut i: usize = 0;
    while i < len
        invariant
            i <= len,
            len == t.len(),
            t == text@,
            keep == (|l: Seq<char>| l.len() > 0),
            ids@.map_values(|s: String| s@) + lines_from(t, i as int).filter(keep) == lines(t).filter(keep),
        decreases len - i,
    {
        let e = find_newline(text, len, i);
        let line = line_text(text, i, e);
        let ghost l = line@;
        let ghost before = ids@.map_values(|s: String| s@);
        proof {
            assert(lines_from(t, i as int) == seq![l] + lines_from(t, e + 1));
            Seq::filter_distributes_over_add(seq![l], lines_from(t, e + 1), keep);
            reveal_with_fuel(Seq::filter, 2);
        }
        if line.unicode_len() > 0 {
            ids.push(line);
            assert(ids@.map_values(|s: String| s@) =~= before.push(l));
            assert(seq![l].filter(keep) =~= seq![l]);
        } else {
            assert(seq![l].filter(keep) =~= Seq::<Seq<char>>::empty());
        }
        if e < len {
            i = e + 1;
        } else {
            i = len;
        }
    }
    ids
}

/// What reading a sensor's data file with content `t` gives.
pub open spec fn device_result(t: Seq<char>) -> Result<i32, SensorError> {
    match device_reading(t) {
        Ok(v) => Ok(v as i32),
        Err(f) => Err(SensorError::Parse(f)),
    }
}

/// The reading, in thousandths of a degree Celsius, held by the content of a
/// sensor's data file.
pub fn parse_device_file(text: &str) -> (r: Result<i32, SensorError>)
    ensures
        r == device_result(text@),
        lines(text@).len() >= 2 && !lines(text@)[1].contains('=') ==> r == Err::<i32, SensorError>(
            SensorError::Parse(ParseFailure::MissingEquals),
        ),
        lines(text@).len() >= 2 && lines(text@)[1].contains('=') && decimal_i32(
            data_token(text@),
        ) is None ==> r == Err::<i32, SensorError>(SensorError::Parse(ParseFailure::BadInteger)),
{
    proof {
        let t = text@;
        if lines(t).len() >= 2 && !lines(t)[1].contains('=') {
            lemma_data_line_without_equals(t);
        }
        if lines(t).len() >= 2 && lines(t)[1].contains('=') && decimal_i32(data_token(t)) is None {
            lemma_token_not_numeric(t);
        }
    }
    let ghost t = text@;
    let len = text.unicode_len();
    if len == 0 {
        return Err(SensorError::Parse(ParseFailure::MissingStatusLine));
    }
    let e0 = find_newline(text, len, 0);
    assert(lines(t) == seq![strip_cr(t.subrange(0, e0 as int))] + lines_from(t, e0 + 1));
    if e0 >= len - 1 {
        assert(lines(t).len() == 1);
        return Err(SensorError::Parse(ParseFailure::MissingDataLine));
    }
    let e1 = find_newline(text, len, e0 + 1);
    let line = line_text(text, e0 + 1, e1);
    assert(lines_from(t, e0 + 1) == seq![line@] + lines_from(t, e1 + 1));
    assert(lines(t)[1] == line@);
    let n = line.unicode_len();
    let mut j: usize = n;
    while j > 0 && line.get_char(j - 1) != '='
        invariant
            j <= n,
            n == line@.len(),
            rfind_before(line@, '=', n as int) == rfind_before(line@, '=', j as int),
        decreases j,
    {
        j = j - 1;
    }
    if j == 0 {
        return Err(SensorError::Parse(ParseFailure::MissingEquals));
    }
    let token = line.as_str().substring_char(j, n);
    match parse_i32(token) {
        Some(v) => Ok(v),
        None => Err(SensorError::Parse(ParseFailure::BadInteger)),
    }
}

proof fn lemma_rfind_before(l: Seq<char>, c: char, j: int)
    requires
        0 <= j <= l.len(),
    ensures
        rfind_before(l, c, j) < 0 <==> (forall|i: int| 0 <= i < j ==> l[i] != c),
        -1 <= rfind_before(l, c, j) < j,
    decreases j,
{
    if j > 0 && l[j - 1] != c {
        lemma_rfind_before(l, c, j - 1);
        assert forall|i: int| 0 <= i < j - 1 && l[i] == c implies rfind_before(l, c, j) >= 0 by {}
    }
}

/// A sensor file with at least two lines whose second line holds no `=` is
/// refused as unparsable.
pub proof fn lemma_data_line_without_equals(t: Seq<char>)
    requires
        lines(t).len() >= 2,
        !lines(t)[1].contains('='),
    ensures
        device_result(t) == Err::<i32, SensorError>(SensorError::Parse(ParseFailure::MissingEquals)),
{
    let l = lines(t)[1];
    lemma_rfind_before(l, '=', l.len() as int);
    assert forall|i: int| 0 <= i < l.len() implies l[i] != '=' by {
        if l[i] == '=' {
            assert(l.contains('='));
        }
    }
}

/// The token after the last `=` of the data line of `t`.
pub open spec fn data_token(t: Seq<char>) -> Seq<char> {
    let l = lines(t)[1];
    l.subrange(rfind_before(l, '=', l.len() as int) + 1, l.len() as int)
}

/// A sensor file whose second line holds an `=`, but whose token after the
/// last `=` is not a signed decimal integer in the range of `i32` (empty,
/// non-numeric, or too large), is refused as unparsable.
pub proof fn lemma_token_not_numeric(t: Seq<char>)
    requires
        lines(t).len() >= 2,
        lines(t)[1].contains('='),
        decimal_i32(data_token(t)) is None,
    ensures
        device_result(t) == Err::<i32, SensorError>(SensorError::Parse(ParseFailure::BadInteger)),
{
    let l = lines(t)[1];
    lemma_rfind_before(l, '=', l.len() as int);
    assert(rfind_before(l, '=', l.len() as int) >= 0);
}

/// A token that holds a character which is neither a digit nor a leading
/// sign is not a signed decimal integer.
pub proof fn lemma_stray_char_not_decimal(token: Seq<char>, i: int)
    requires
        0 <= i < token.len(),
        !is_digit(token[i]),
        !(i == 0 && (token[0] == '-' || token[0] == '+')),
    ensures
        decimal_i32(token) is None,
{
    let d = unsigned_part(token);
    if token.len() > 0 && (token[0] == '-' || token[0] == '+') {
        assert(d[i - 1] == token[i]);
        assert(!is_digit(d[i - 1]));
    } else {
        assert(!is_digit(d[i]));
    }
    assert(!all_digits(d));
}

} // verus!

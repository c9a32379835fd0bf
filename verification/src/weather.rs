//! The weather record: the wttr.in request URL, the reading of its JSON reply
//! into a [`WeatherInfo`], and the half-hour cache of the last reply.

use vstd::prelude::*;
use vstd::string::StringExecFns;
use vstd::string::StringSliceAdditionalSpecFns;
use crate::text::{decimal, digit_char, str_eq};

verus! {

/// Weather shown by the island.
#[derive(Debug)]
pub struct WeatherInfo {
    pub temp_c: i32,
    pub description: String,
    pub icon_code: String,
    pub city: String,
    pub humidity: i32,
    pub feels_like_c: i32,
    pub wind_kmph: i32,
}

impl WeatherInfo {
    /// A copy of this record.
    pub fn duplicate(&self) -> (w: Self)
        ensures
            w == *self,
    {
        WeatherInfo {
            temp_c: self.temp_c,
            description: self.description.clone(),
            icon_code: self.icon_code.clone(),
            city: self.city.clone(),
            humidity: self.humidity,
            feels_like_c: self.feels_like_c,
            wind_kmph: self.wind_kmph,
        }
    }
}

/// A `{"value": ...}` object of the wttr.in reply.
#[derive(Debug)]
pub struct WttrValue {
    pub value: String,
}

/// The `current_condition` entry of the wttr.in reply.
#[derive(Debug)]
pub struct WttrCurrent {
    pub temp_c: String,
    pub feels_like_c: String,
    pub humidity: String,
    pub windspeed_kmph: String,
    pub weather_desc: Vec<WttrValue>,
    pub weather_code: String,
}

/// The `nearest_area` entry of the wttr.in reply.
#[derive(Debug)]
pub struct WttrArea {
    pub area_name: Vec<WttrValue>,
}

/// The parts of the wttr.in `format=j1` reply that the island reads.
#[derive(Debug)]
pub struct WttrResponse {
    pub current_condition: Vec<WttrCurrent>,
    pub nearest_area: Vec<WttrArea>,
}

/// Why a decimal integer could not be read, as `core::num::IntErrorKind` has it.
#[derive(Debug, Clone, Copy, PartialEq, Eq)]
pub enum IntParseError {
    Empty,
    InvalidDigit,
    PosOverflow,
    NegOverflow,
}

/// Whether `c` is an ASCII decimal digit.
pub open spec fn is_digit(c: char) -> bool {
    '0' <= c <= '9'
}

/// The value of a decimal digit.
pub open spec fn digit_value(c: char) -> int {
    c as int - '0' as int
}

/// Reading the digits `ds` onto the value `acc` read so far, left to right,
/// stopping at the first character that is not a digit or at the first value
/// out of the `i32` range.
pub open spec fn read_digits(ds: Seq<char>, acc: int, negative: bool) -> Result<i32, IntParseError>
    decreases ds.len(),
{
    if ds.len() == 0 {
        Ok(acc as i32)
    } else if !is_digit(ds[0]) {
        Err(IntParseError::InvalidDigit)
    } else {
        let next = if negative {
            acc * 10 - digit_value(ds[0])
        } else {
            acc * 10 + digit_value(ds[0])
        };
        if next > i32::MAX {
            Err(IntParseError::PosOverflow)
        } else if next < i32::MIN {
            Err(IntParseError::NegOverflow)
        } else {
            read_digits(ds.drop_first(), next, negative)
        }
    }
}

/// What `str::parse::<i32>` gives for `s`: an optional `+` or `-` sign and
/// then at least one decimal digit.
pub open spec fn parse_i32_spec(s: Seq<char>) -> Result<i32, IntParseError> {
    if s.len() == 0 {
        Err(IntParseError::Empty)
    } else if (s[0] == '+' || s[0] == '-') && s.len() == 1 {
        Err(IntParseError::InvalidDigit)
    } else if s[0] == '+' {
        read_digits(s.drop_first(), 0, false)
    } else if s[0] == '-' {
        read_digits(s.drop_first(), 0, true)
    } else {
        read_digits(s, 0, false)
    }
}

/// Reads a decimal `i32` as `str::parse::<i32>` does.
pub fn parse_i32(s: &str) -> (r: Result<i32, IntParseError>)
    ensures
        r == parse_i32_spec(s@),
{
    let n = s.unicode_len();
    if n == 0 {
        return Err(IntParseError::Empty);
    }
    let first = s.get_char(0);
    if (first == '+' || first == '-') && n == 1 {
        return Err(IntParseError::InvalidDigit);
    }
    let negative = first == '-';
    let mut i: usize = if first == '+' || first == '-' {
        1
    } else {
        0
    };
    let ghost digits = if first == '+' || first == '-' {
        s@.drop_first()
    } else {
        s@
    };
    let mut acc: i32 = 0;
    assert(s@.skip(i as int) =~= digits);
    while i < n
        invariant
            n == s@.len(),
            1 <= n,
            0 <= i <= n,
            parse_i32_spec(s@) == read_digits(s@.skip(i as int), acc as int, negative),
        decreases n - i,
    {
        let c = s.get_char(i);
        assert(s@.skip(i as int)[0] == c);
        assert(s@.skip(i as int).drop_first() =~= s@.skip(i + 1));
        if c < '0' || c > '9' {
            return Err(IntParseError::InvalidDigit);
        }
        let d: i64 = (c as u32 - '0' as u32) as i64;
        let next: i64 = if negative {
            acc as i64 * 10 - d
        } else {
            acc as i64 * 10 + d
        };
        if next > i32::MAX as i64 {
            return Err(IntParseError::PosOverflow);
        }
        if next < i32::MIN as i64 {
            return Err(IntParseError::NegOverflow);
        }
        acc = next as i32;
        i = i + 1;
    }
    assert(s@.skip(n as int) =~= Seq::<char>::empty());
    Ok(acc)
}

/// The decimal text of an integer, with a leading '-' when it is negative.
pub open spec fn signed_decimal(v: int) -> Seq<char> {
    if v < 0 {
        seq!['-'] + decimal((-v) as nat)
    } else {
        decimal(v as nat)
    }
}

proof fn lemma_digit_char(d: int)
    requires
        0 <= d < 10,
    ensures
        is_digit(digit_char(d)),
        digit_value(digit_char(d)) == d,
{
    let t = seq!['0', '1', '2', '3', '4', '5', '6', '7', '8', '9'];
    assert(digit_char(d) == t[d]);
    assert(d == 0 || d == 1 || d == 2 || d == 3 || d == 4 || d == 5 || d == 6 || d == 7 || d == 8
        || d == 9);
}

proof fn lemma_decimal_digits(n: nat)
    ensures
        decimal(n).len() >= 1,
        is_digit(decimal(n)[0]),
    decreases n,
{
    if n < 10 {
        lemma_digit_char(n as int);
    } else {
        lemma_decimal_digits(n / 10);
        assert(decimal(n)[0] == decimal(n / 10)[0]);
    }
}

proof fn lemma_read_push(s: Seq<char>, c: char, acc: int, negative: bool)
    requires
        i32::MIN <= acc <= i32::MAX,
    ensures
        read_digits(s.push(c), acc, negative) == match read_digits(s, acc, negative) {
            Ok(x) => read_digits(seq![c], x as int, negative),
            Err(e) => Err(e),
        },
    decreases s.len(),
{
    if s.len() == 0 {
        assert(s.push(c) =~= seq![c]);
    } else {
        assert(s.push(c)[0] == s[0]);
        assert(s.push(c).drop_first() =~= s.drop_first().push(c));
        if is_digit(s[0]) {
            let next = if negative {
                acc * 10 - digit_value(s[0])
            } else {
                acc * 10 + digit_value(s[0])
            };
            if i32::MIN <= next <= i32::MAX {
                lemma_read_push(s.drop_first(), c, next, negative);
            }
        }
    }
}

proof fn lemma_read_decimal(n: nat, negative: bool)
    requires
        n <= (if negative {
            0x8000_0000int
        } else {
            0x7fff_ffffint
        }),
    ensures
        read_digits(decimal(n), 0, negative) == Ok::<i32, IntParseError>(
            (if negative {
                -n
            } else {
                n as int
            }) as i32,
        ),
    decreases n,
{
    let signed: int = if negative {
        -n
    } else {
        n as int
    };
    if n < 10 {
        let c = digit_char(n as int);
        lemma_digit_char(n as int);
        assert(decimal(n) == seq![c]);
        assert(seq![c].drop_first() =~= Seq::<char>::empty());
        assert(read_digits(Seq::<char>::empty(), signed, negative) == Ok::<i32, IntParseError>(
            signed as i32,
        ));
    } else {
        let q: nat = n / 10;
        let d: int = (n % 10) as int;
        lemma_read_decimal(q, negative);
        lemma_digit_char(d);
        let sq: int = if negative {
            -q
        } else {
            q as int
        };
        lemma_read_push(decimal(q), digit_char(d), 0, negative);
        assert(n == q * 10 + d);
        let c = digit_char(d);
        assert(seq![c].drop_first() =~= Seq::<char>::empty());
        assert(read_digits(Seq::<char>::empty(), signed, negative) == Ok::<i32, IntParseError>(
            signed as i32,
        ));
        assert((sq as i32) as int == sq);
        assert(read_digits(seq![c], sq, negative) == Ok::<i32, IntParseError>(signed as i32));
    }
}

/// Reading the decimal text of any `i32` gives the number back, as
/// `str::parse::<i32>` does.
pub proof fn law_parse_reads_decimal(v: i32)
    ensures
        parse_i32_spec(signed_decimal(v as int)) == Ok::<i32, IntParseError>(v),
{
    if v < 0 {
        let n: nat = (-(v as int)) as nat;
        lemma_decimal_digits(n);
        lemma_read_decimal(n, true);
        let s = signed_decimal(v as int);
        assert(s[0] == '-');
        assert(s.drop_first() =~= decimal(n));
    } else {
        let n: nat = v as nat;
        lemma_decimal_digits(n);
        lemma_read_decimal(n, false);
    }
}

impl IntParseError {
    /// The text of the error, as `ParseIntError`'s `Display` writes it.
    pub fn message(&self) -> (text: String)
        ensures
            text@ == match self {
                IntParseError::Empty => "cannot parse integer from empty string"@,
                IntParseError::InvalidDigit => "invalid digit found in string"@,
                IntParseError::PosOverflow => "number too large to fit in target type"@,
                IntParseError::NegOverflow => "number too small to fit in target type"@,
            },
    {
        match self {
            IntParseError::Empty => String::from_str("cannot parse integer from empty string"),
            IntParseError::InvalidDigit => String::from_str("invalid digit found in string"),
            IntParseError::PosOverflow => String::from_str("number too large to fit in target type"),
            IntParseError::NegOverflow => String::from_str("number too small to fit in target type"),
        }
    }
}

/// Whether a byte is left as it is by percent-encoding: an ASCII letter or
/// digit, or one of `-`, `_`, `.`, `~`.
pub open spec fn url_safe(b: u8) -> bool {
    (0x30 <= b <= 0x39) || (0x41 <= b <= 0x5a) || (0x61 <= b <= 0x7a) || b == 0x2d || b == 0x5f
        || b == 0x2e || b == 0x7e
}

/// The upper-case hexadecimal digit of `d` (0 to 15).
pub open spec fn hex_upper(d: int) -> char {
    seq!['0', '1', '2', '3', '4', '5', '6', '7', '8', '9', 'A', 'B', 'C', 'D', 'E', 'F'][d]
}

/// The percent-encoding of a byte sequence.
pub open spec fn percent_encoded(bytes: Seq<u8>) -> Seq<char>
    decreases bytes.len(),
{
    if bytes.len() == 0 {
        Seq::empty()
    } else {
        let b = bytes[0];
        let head = if url_safe(b) {
            seq![b as char]
        } else {
            seq!['%', hex_upper((b / 16) as int), hex_upper((b % 16) as int)]
        };
        head + percent_encoded(bytes.drop_first())
    }
}

/// `urlencoding::encode`: percent-encodes every byte of the UTF-8 form of
/// `data` except ASCII letters, digits and `-`, `_`, `.`, `~`, with upper-case
/// hexadecimal digits.
#[verifier::external_body]
fn url_encode(data: &str) -> (encoded: String)
    ensures
        encoded@ == percent_encoded(data.spec_bytes()),
{
    urlencoding::encode(data).into_owned()
}

/// The wttr.in address of the JSON weather of `city`; an empty city or
/// "auto" asks wttr.in to locate the caller.
pub open spec fn weather_url_spec(city: Seq<char>) -> Seq<char> {
    if city.len() == 0 || city == "auto"@ {
        "https://wttr.in/?format=j1"@
    } else {
        "https://wttr.in/"@ + percent_encoded(vstd::utf8::encode_utf8(city)) + "?format=j1"@
    }
}

/// The wttr.in address of the JSON weather of `city`.
pub fn weather_url(city: &str) -> (url: String)
    ensures
        url@ == weather_url_spec(city@),
{
    if city.is_empty() || str_eq(city, "auto") {
        String::from_str("https://wttr.in/?format=j1")
    } else {
        let encoded = url_encode(city);
        let mut url = String::from_str("https://wttr.in/");
        url.append(encoded.as_str());
        url.append("?format=j1");
        url
    }
}

/// The value of a parse, or `fallback` when it failed.
pub open spec fn or_else(r: Result<i32, IntParseError>, fallback: i32) -> i32 {
    match r {
        Ok(v) => v,
        Err(_) => fallback,
    }
}

/// The weather that a wttr.in reply describes for the requested `city`.
pub open spec fn weather_from_reply(resp: WttrResponse, city: Seq<char>) -> Result<
    (i32, Seq<char>, Seq<char>, Seq<char>, i32, i32, i32),
    Seq<char>,
> {
    if resp.current_condition@.len() == 0 {
        Err("No current condition"@)
    } else {
        let cur = resp.current_condition@[0];
        match parse_i32_spec(cur.temp_c@) {
            Err(e) => Err(parse_error_text(e)),
            Ok(temp) => {
                let city_name = if resp.nearest_area@.len() > 0
                    && resp.nearest_area@[0].area_name@.len() > 0 {
                    resp.nearest_area@[0].area_name@[0].value@
                } else {
                    city
                };
                let description = if cur.weather_desc@.len() > 0 {
                    cur.weather_desc@[0].value@
                } else {
                    Seq::empty()
                };
                Ok(
                    (
                        temp,
                        description,
                        cur.weather_code@,
                        city_name,
                        or_else(parse_i32_spec(cur.humidity@), 0),
                        or_else(parse_i32_spec(cur.feels_like_c@), temp),
                        or_else(parse_i32_spec(cur.windspeed_kmph@), 0),
                    ),
                )
            },
        }
    }
}

/// The text of a parse error.
pub open spec fn parse_error_text(e: IntParseError) -> Seq<char> {
    match e {
        IntParseError::Empty => "cannot parse integer from empty string"@,
        IntParseError::InvalidDigit => "invalid digit found in string"@,
        IntParseError::PosOverflow => "number too large to fit in target type"@,
        IntParseError::NegOverflow => "number too small to fit in target type"@,
    }
}

/// The fields of a weather record: temperature, description, icon code,
/// city, humidity, felt temperature, wind speed.
pub open spec fn weather_fields(w: WeatherInfo) -> (i32, Seq<char>, Seq<char>, Seq<char>, i32, i32, i32) {
    (w.temp_c, w.description@, w.icon_code@, w.city@, w.humidity, w.feels_like_c, w.wind_kmph)
}

/// Reads the weather of `city` out of a wttr.in reply: the first current
/// condition (its temperature must be an integer), the first area name (else
/// `city`), and the humidity, felt temperature and wind speed (else 0, the
/// temperature and 0).
pub fn weather_from_response(resp: &WttrResponse, city: &str) -> (r: Result<WeatherInfo, String>)
    ensures
        match weather_from_reply(*resp, city@) {
            Ok(fields) => r matches Ok(w) && weather_fields(w) == fields,
            Err(text) => r matches Err(e) && e@ == text,
        },
{
    if resp.current_condition.len() == 0 {
        return Err(String::from_str("No current condition"));
    }
    let cur = &resp.current_condition[0];
    let city_name = if resp.nearest_area.len() > 0 && resp.nearest_area[0].area_name.len() > 0 {
        resp.nearest_area[0].area_name[0].value.clone()
    } else {
        String::from_str(city)
    };
    let temp_c = match parse_i32(cur.temp_c.as_str()) {
        Ok(v) => v,
        Err(e) => {
            return Err(e.message());
        },
    };
    let humidity = match parse_i32(cur.humidity.as_str()) {
        Ok(v) => v,
        Err(_) => 0,
    };
    let feels_like_c = match parse_i32(cur.feels_like_c.as_str()) {
        Ok(v) => v,
        Err(_) => temp_c,
    };
    let wind_kmph = match parse_i32(cur.windspeed_kmph.as_str()) {
        Ok(v) => v,
        Err(_) => 0,
    };
    let description = if cur.weather_desc.len() > 0 {
        cur.weather_desc[0].value.clone()
    } else {
        String::new()
    };
    Ok(
        WeatherInfo {
            temp_c,
            description,
            icon_code: cur.weather_code.clone(),
            city: city_name,
            humidity,
            feels_like_c,
            wind_kmph,
        },
    )
}

/// How long a fetched weather record is served again, in nanoseconds (30 minutes).
pub const WEATHER_TTL_NANOS: u64 = 1_800_000_000_000;

/// The last fetched weather and when it was fetched, on a monotonic clock in
/// nanoseconds.
pub struct WeatherCache {
    entry: Option<(WeatherInfo, u64)>,
}

/// The record a cache holding `entry` serves at time `now`.
pub open spec fn cached_at(entry: Option<(WeatherInfo, u64)>, now: u64) -> Option<WeatherInfo> {
    match entry {
        Some((info, stored)) => if now >= stored && now - stored < WEATHER_TTL_NANOS {
            Some(info)
        } else if now < stored {
            Some(info)
        } else {
            None
        },
        None => None,
    }
}

impl WeatherCache {
    pub closed spec fn entry(&self) -> Option<(WeatherInfo, u64)> {
        self.entry
    }

    /// An empty cache.
    pub fn new() -> (c: Self)
        ensures
            c.entry() is None,
    {
        WeatherCache { entry: None }
    }

    /// The stored record if it was fetched less than 30 minutes before `now`.
    pub fn fresh(&self, now: u64) -> (r: Option<WeatherInfo>)
        ensures
            r == cached_at(self.entry(), now),
    {
        match &self.entry {
            Some((info, stored)) => {
                let age = if now >= *stored {
                    now - *stored
                } else {
                    0
                };
                if age < WEATHER_TTL_NANOS {
                    Some(info.duplicate())
                } else {
                    None
                }
            },
            None => None,
        }
    }

    /// Stores `info` as fetched at `now`.
    pub fn store(&mut self, info: WeatherInfo, now: u64)
        ensures
            final(self).entry() == Some((info, now)),
    {
        self.entry = Some((info, now));
    }
}

/// A stored record is served back unchanged until 30 minutes have passed,
/// and not after.
pub proof fn law_cache_serves_stored_until_ttl(info: WeatherInfo, stored: u64, now: u64)
    requires
        now >= stored,
    ensures
        now - stored < WEATHER_TTL_NANOS ==> cached_at(Some((info, stored)), now) == Some(info),
        now - stored >= WEATHER_TTL_NANOS ==> cached_at(Some((info, stored)), now) is None,
{
}

} // verus!

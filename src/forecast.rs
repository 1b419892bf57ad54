//! Forecast records as the rendering engine reads them. Magnitudes that the
//! forecast service sends as decimals are held in hundredths of their unit.
use vstd::prelude::*;
use vstd::string::*;

verus! {

/// The widest local timestamp accepted, in seconds either side of 1970: about
/// 250,000 years, inside the range of calendar dates that chrono represents.
pub const TIMESTAMP_LIMIT: i64 = 8_000_000_000_000;

/// The hour of the day (0 to 23) of a local timestamp in seconds.
pub open spec fn hour_of_day(secs: int) -> int {
    (secs % 86400) / 3600
}

/// An hour of the day on a 12-hour clock, then `am` or `pm`: `12am`, `3pm`.
pub open spec fn clock_label(hour: int) -> Seq<char> {
    let h12: nat = if hour % 12 == 0 {
        12
    } else {
        (hour % 12) as nat
    };
    crate::text::decimal(h12) + if hour < 12 {
        seq!['a', 'm']
    } else {
        seq!['p', 'm']
    }
}

/// The calendar label (`Thu Feb 24`) of a local timestamp in seconds.
pub uninterp spec fn date_label_of(secs: int) -> Seq<char>;

/// Relies on chrono's `DateTime::from_timestamp` and `format("%a %b %d")`: the
/// weekday and month names, always three letters each, and the day of the month
/// padded to two digits, separated by single spaces.
#[verifier::external_body]
fn date_label(secs: i64) -> (r: String)
    requires
        -TIMESTAMP_LIMIT <= secs <= TIMESTAMP_LIMIT,
    ensures
        r@ == date_label_of(secs as int),
        r@.len() == 10,
{
    chrono::DateTime::from_timestamp(secs, 0).expect("timestamp in range").format(
        "%a %b %d",
    ).to_string()
}

/// Relies on chrono's `DateTime::from_timestamp` and `Timelike::hour`: the
/// hour of `secs.rem_euclid(86400)` seconds into the day.
#[verifier::external_body]
fn hour_from_timestamp(secs: i64) -> (r: u32)
    requires
        -TIMESTAMP_LIMIT <= secs <= TIMESTAMP_LIMIT,
    ensures
        r as int == hour_of_day(secs as int),
{
    chrono::Timelike::hour(&chrono::DateTime::from_timestamp(secs, 0).expect("timestamp in range"))
}

/// Relies on chrono's `DateTime::from_timestamp` and `format("%-I%P")`: the
/// hour on a 12-hour clock (1 to 12) without padding, then `am` or `pm`.
#[verifier::external_body]
fn clock_label_from_timestamp(secs: i64) -> (r: String)
    requires
        -TIMESTAMP_LIMIT <= secs <= TIMESTAMP_LIMIT,
    ensures
        r@ == clock_label(hour_of_day(secs as int)),
{
    chrono::DateTime::from_timestamp(secs, 0).expect("timestamp in range").format(
        "%-I%P",
    ).to_string()
}

/// A local wall-clock instant, in whole seconds since 1970-01-01 00:00 of the
/// spot's own time.
#[derive(Copy, Clone, Debug, PartialEq, Eq)]
pub struct LocalTime {
    secs: i64,
}

impl LocalTime {
    #[verifier::type_invariant]
    spec fn in_range(self) -> bool {
        -TIMESTAMP_LIMIT <= self.secs <= TIMESTAMP_LIMIT
    }

    /// The seconds since 1970 that this instant stands for.
    pub closed spec fn seconds(self) -> int {
        self.secs as int
    }

    /// The instant `secs` seconds after 1970 began, where that is within
    /// `TIMESTAMP_LIMIT`.
    pub fn from_timestamp(secs: i64) -> (r: Option<LocalTime>)
        ensures
            r is Some <==> -TIMESTAMP_LIMIT <= secs <= TIMESTAMP_LIMIT,
            r matches Some(t) ==> t.seconds() == secs,
    {
        if -TIMESTAMP_LIMIT <= secs && secs <= TIMESTAMP_LIMIT {
            Some(LocalTime { secs })
        } else {
            None
        }
    }

    /// The seconds since 1970.
    pub fn timestamp(&self) -> (r: i64)
        ensures
            r as int == self.seconds(),
    {
        self.secs
    }

    /// The hour of the day, 0 to 23.
    pub fn hour(&self) -> (r: u32)
        ensures
            r as int == hour_of_day(self.seconds()),
    {
        proof {
            use_type_invariant(self);
        }
        hour_from_timestamp(self.secs)
    }

    /// The calendar label, as `Thu Feb 24`.
    pub fn date_label(&self) -> (r: String)
        ensures
            r@ == date_label_of(self.seconds()),
            r@.len() == 10,
    {
        proof {
            use_type_invariant(self);
        }
        date_label(self.secs)
    }

    /// The hour on a 12-hour clock, as `3pm`.
    pub fn clock_label(&self) -> (r: String)
        ensures
            r@ == clock_label(hour_of_day(self.seconds())),
    {
        proof {
            use_type_invariant(self);
        }
        clock_label_from_timestamp(self.secs)
    }
}

/// One time-stamped forecast sample.
#[derive(Clone, Debug, PartialEq)]
pub struct Forecast {
    pub timestamp: i64,
    pub local_timestamp: LocalTime,
    pub faded_rating: u8,
    pub solid_rating: u8,
    pub swell: Swell,
    pub wind: Wind,
    pub condition: Condition,
    pub charts: Charts,
}

/// The swell state of a sample. Heights are in hundredths of `unit`.
#[derive(Clone, Copy, Debug, PartialEq, Eq, Structural)]
pub struct Swell {
    pub min_breaking_height: u32,
    pub abs_min_breaking_height: u32,
    pub max_breaking_height: u32,
    pub abs_max_breaking_height: u32,
    pub unit: UnitLength,
    pub components: SwellComponents,
}

/// The swell trains of a sample, each of which may be absent.
#[derive(Clone, Copy, Debug, PartialEq, Eq, Structural)]
pub struct SwellComponents {
    pub combined: Option<SwellComponent>,
    pub primary: Option<SwellComponent>,
    pub secondary: Option<SwellComponent>,
    pub tertiary: Option<SwellComponent>,
}

/// One swell train: height in hundredths of the swell's unit, period in
/// seconds, direction in hundredths of a degree.
#[derive(Clone, Copy, Debug, PartialEq, Eq, Structural)]
pub struct SwellComponent {
    pub height: u32,
    pub period: u16,
    pub direction: u32,
    pub compass_direction: CompassDirection,
}

/// The wind state of a sample; direction in hundredths of a degree.
#[derive(Clone, Copy, Debug, PartialEq, Eq, Structural)]
pub struct Wind {
    pub speed: u32,
    pub direction: u32,
    pub compass_direction: CompassDirection,
    pub chill: i32,
    pub gusts: u32,
    pub unit: UnitSpeed,
}

/// The weather state of a sample.
#[derive(Clone, Debug, PartialEq, Eq)]
pub struct Condition {
    pub pressure: u32,
    pub temperature: i32,
    pub unit_pressure: String,
    pub unit_temperature: UnitTemperature,
}

/// Addresses of chart images; the renderer does not read them.
#[derive(Clone, Debug, PartialEq, Eq)]
pub struct Charts {
    pub swell: Option<String>,
    pub period: Option<String>,
    pub wind: Option<String>,
    pub pressure: Option<String>,
    pub sst: Option<String>,
}

#[derive(Clone, Copy, Debug, PartialEq, Eq, Structural)]
pub enum UnitLength {
    Feet,
    Meters,
}

#[derive(Clone, Copy, Debug, PartialEq, Eq, Structural)]
pub enum UnitSpeed {
    Mph,
    Kph,
}

#[derive(Clone, Copy, Debug, PartialEq, Eq, Structural)]
pub enum UnitTemperature {
    C,
    F,
}

/// One of the 16 points of the compass.
#[derive(Clone, Copy, Debug, PartialEq, Eq, Structural)]
pub enum CompassDirection {
    N,
    NNE,
    NE,
    ENE,
    E,
    ESE,
    SE,
    SSE,
    S,
    SSW,
    SW,
    WSW,
    W,
    WNW,
    NW,
    NNW,
}

/// The systems of units that the forecast service offers.
#[derive(Clone, Copy, Debug, PartialEq, Eq, Structural)]
pub enum UnitType {
    Uk,
    Us,
    Eu,
}

pub open spec fn length_symbol(u: UnitLength) -> Seq<char> {
    match u {
        UnitLength::Feet => seq!['f', 't'],
        UnitLength::Meters => seq!['m'],
    }
}

pub open spec fn speed_symbol(u: UnitSpeed) -> Seq<char> {
    match u {
        UnitSpeed::Mph => seq!['m', 'p', 'h'],
        UnitSpeed::Kph => seq!['k', 'p', 'h'],
    }
}

pub open spec fn temperature_symbol(u: UnitTemperature) -> Seq<char> {
    match u {
        UnitTemperature::C => seq!['°', 'C'],
        UnitTemperature::F => seq!['°', 'F'],
    }
}

pub open spec fn unit_type_name(u: UnitType) -> Seq<char> {
    match u {
        UnitType::Uk => seq!['u', 'k'],
        UnitType::Us => seq!['u', 's'],
        UnitType::Eu => seq!['e', 'u'],
    }
}

impl UnitLength {
    /// The unit's symbol, `ft` or `m`.
    pub fn as_str(&self) -> (r: &'static str)
        ensures
            r@ == length_symbol(*self),
    {
        proof {
            reveal_strlit("ft");
            reveal_strlit("m");
        }
        match self {
            UnitLength::Feet => "ft",
            UnitLength::Meters => "m",
        }
    }
}

impl UnitSpeed {
    /// The unit's symbol, `mph` or `kph`.
    pub fn as_str(&self) -> (r: &'static str)
        ensures
            r@ == speed_symbol(*self),
    {
        proof {
            reveal_strlit("mph");
            reveal_strlit("kph");
        }
        match self {
            UnitSpeed::Mph => "mph",
            UnitSpeed::Kph => "kph",
        }
    }
}

impl UnitTemperature {
    /// The unit's symbol, `°C` or `°F`.
    pub fn as_str(&self) -> (r: &'static str)
        ensures
            r@ == temperature_symbol(*self),
    {
        proof {
            reveal_strlit("°C");
            reveal_strlit("°F");
        }
        match self {
            UnitTemperature::C => "°C",
            UnitTemperature::F => "°F",
        }
    }
}

impl UnitType {
    /// The name the forecast service knows the system by.
    pub fn as_str(&self) -> (r: &'static str)
        ensures
            r@ == unit_type_name(*self),
    {
        proof {
            reveal_strlit("uk");
            reveal_strlit("us");
            reveal_strlit("eu");
        }
        match self {
            UnitType::Uk => "uk",
            UnitType::Us => "us",
            UnitType::Eu => "eu",
        }
    }
}

} // verus!

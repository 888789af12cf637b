//! Names of menu entries and choices, displayable as text.
use vstd::prelude::*;

verus! {

/// All names used throughout the library which must occasionally be displayed as strings.
///
/// Each is one small value that is cheap to copy, compare and store; its
/// text is looked up only when displayed.
#[derive(Copy, Clone, Debug, PartialEq, Eq, Structural)]
pub enum Name {
    Unused,
    DateTime,
    GPSTime,
    Year,
    Month,
    Day,
    Hour,
    Minute,
    Second,
    AutomaticDST,
    UTCOffset,
    MapCategory,
    Route,
    RouteDay,
    AnimateRoute,
    HourlyImages,
    Display,
    Brightness,
    DimAtNight,
    DimBrightness,
    DimStartHour,
    DimEndHour,
    CaminoFrances,
    HolyIsland,
    Scotland,
    Shikoku,
    ViaFrancigena,
    ViaPodiensis,
    NoMap,
}

/// The text displayed for a name.
pub open spec fn name_text(name: Name) -> Seq<char> {
    match name {
        Name::Unused => ""@,
        Name::DateTime => "Date/Time"@,
        Name::GPSTime => "GPS time"@,
        Name::Year => "Year (UTC)"@,
        Name::Month => "Month (UTC)"@,
        Name::Day => "Day (UTC)"@,
        Name::Hour => "Hour (UTC)"@,
        Name::Minute => "Minute (UTC)"@,
        Name::Second => "Second (UTC)"@,
        Name::AutomaticDST => "Automatic DST"@,
        Name::UTCOffset => "UTC offset"@,
        Name::MapCategory => "Map"@,
        Name::Route => "Route"@,
        Name::RouteDay => "Route day"@,
        Name::AnimateRoute => "Animate route"@,
        Name::HourlyImages => "Hourly images"@,
        Name::Display => "Display"@,
        Name::Brightness => "Brightness"@,
        Name::DimAtNight => "Dim at night"@,
        Name::DimBrightness => "Dim brightness"@,
        Name::DimStartHour => "Dim start hour"@,
        Name::DimEndHour => "Dim end hour"@,
        Name::CaminoFrances => "Camino Frances"@,
        Name::HolyIsland => "Holy Island"@,
        Name::Scotland => "Scotland"@,
        Name::Shikoku => "Shikoku"@,
        Name::ViaFrancigena => "Via Francigena"@,
        Name::ViaPodiensis => "Via Podiensis"@,
        Name::NoMap => "None"@,
    }
}

impl Name {
    /// The text displayed for this name.
    pub fn into_str(&self) -> (r: &'static str)
        ensures
            r@ == name_text(*self),
    {
        match self {
            Name::Unused => "",
            Name::DateTime => "Date/Time",
            Name::GPSTime => "GPS time",
            Name::Year => "Year (UTC)",
            Name::Month => "Month (UTC)",
            Name::Day => "Day (UTC)",
            Name::Hour => "Hour (UTC)",
            Name::Minute => "Minute (UTC)",
            Name::Second => "Second (UTC)",
            Name::AutomaticDST => "Automatic DST",
            Name::UTCOffset => "UTC offset",
            Name::MapCategory => "Map",
            Name::Route => "Route",
            Name::RouteDay => "Route day",
            Name::AnimateRoute => "Animate route",
            Name::HourlyImages => "Hourly images",
            Name::Display => "Display",
            Name::Brightness => "Brightness",
            Name::DimAtNight => "Dim at night",
            Name::DimBrightness => "Dim brightness",
            Name::DimStartHour => "Dim start hour",
            Name::DimEndHour => "Dim end hour",
            Name::CaminoFrances => "Camino Frances",
            Name::HolyIsland => "Holy Island",
            Name::Scotland => "Scotland",
            Name::Shikoku => "Shikoku",
            Name::ViaFrancigena => "Via Francigena",
            Name::ViaPodiensis => "Via Podiensis",
            Name::NoMap => "None",
        }
    }
}

} // verus!

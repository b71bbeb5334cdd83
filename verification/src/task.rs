//! What a request asks for, whichever way it came in.
//!
//! A route and a tool call end in the same [`Task`], so both are answered by the same handler.

use vstd::prelude::*;
use crate::number::Number;

verus! {

/// Data to be fetched and answered with.
#[derive(Debug, PartialEq, Eq)]
pub enum Task {
    LatestEarthquake,
    RecentEarthquakes,
    FeltEarthquakes,
    NearbyEarthquakes { lat: Number, lon: Number, radius_km: Number },
    FindWeather { query: String },
    WeatherForecast { adm4: String },
    CurrentWeather { adm4: String },
    Warnings { lang: String },
    WarningCheck { location: String, lang: String },
    WarningDetail { alert_code: String, lang: String },
    Provinces,
    Children { parent_code: String, expect_level: u8 },
    RegionSearch { q: String, limit: u32, level: Option<u8> },
    Region { code: String },
}

pub ghost enum TaskView {
    LatestEarthquake,
    RecentEarthquakes,
    FeltEarthquakes,
    NearbyEarthquakes { lat: Seq<char>, lon: Seq<char>, radius_km: Seq<char> },
    FindWeather { query: Seq<char> },
    WeatherForecast { adm4: Seq<char> },
    CurrentWeather { adm4: Seq<char> },
    Warnings { lang: Seq<char> },
    WarningCheck { location: Seq<char>, lang: Seq<char> },
    WarningDetail { alert_code: Seq<char>, lang: Seq<char> },
    Provinces,
    Children { parent_code: Seq<char>, expect_level: nat },
    RegionSearch { q: Seq<char>, limit: nat, level: Option<nat> },
    Region { code: Seq<char> },
}

impl View for Task {
    type V = TaskView;

    open spec fn view(&self) -> TaskView {
        match self {
            Task::LatestEarthquake => TaskView::LatestEarthquake,
            Task::RecentEarthquakes => TaskView::RecentEarthquakes,
            Task::FeltEarthquakes => TaskView::FeltEarthquakes,
            Task::NearbyEarthquakes { lat, lon, radius_km } => TaskView::NearbyEarthquakes {
                lat: lat@,
                lon: lon@,
                radius_km: radius_km@,
            },
            Task::FindWeather { query } => TaskView::FindWeather { query: query@ },
            Task::WeatherForecast { adm4 } => TaskView::WeatherForecast { adm4: adm4@ },
            Task::CurrentWeather { adm4 } => TaskView::CurrentWeather { adm4: adm4@ },
            Task::Warnings { lang } => TaskView::Warnings { lang: lang@ },
            Task::WarningCheck { location, lang } => TaskView::WarningCheck {
                location: location@,
                lang: lang@,
            },
            Task::WarningDetail { alert_code, lang } => TaskView::WarningDetail {
                alert_code: alert_code@,
                lang: lang@,
            },
            Task::Provinces => TaskView::Provinces,
            Task::Children { parent_code, expect_level } => TaskView::Children {
                parent_code: parent_code@,
                expect_level: *expect_level as nat,
            },
            Task::RegionSearch { q, limit, level } => TaskView::RegionSearch {
                q: q@,
                limit: *limit as nat,
                level: match level {
                    Some(l) => Some(*l as nat),
                    None => None,
                },
            },
            Task::Region { code } => TaskView::Region { code: code@ },
        }
    }
}

impl TaskView {
    /// Whether the region database has a part in it.
    pub open spec fn needs_database(self) -> bool {
        self is FindWeather || self is Provinces || self is Children || self is RegionSearch
            || self is Region
    }

    /// Where the data comes from, as responses name it.
    pub open spec fn source(self) -> Seq<char> {
        match self {
            TaskView::LatestEarthquake => "BMKG autogempa"@,
            TaskView::RecentEarthquakes => "BMKG gempaterkini"@,
            TaskView::FeltEarthquakes => "BMKG gempadirasakan"@,
            TaskView::NearbyEarthquakes { .. } => "BMKG gempaterkini + gempadirasakan"@,
            TaskView::FindWeather { .. } => "BMKG prakiraan-cuaca"@,
            TaskView::WeatherForecast { .. } => "BMKG prakiraan-cuaca"@,
            TaskView::CurrentWeather { .. } => "BMKG prakiraan-cuaca"@,
            TaskView::Warnings { .. } => "BMKG nowcast RSS"@,
            TaskView::WarningCheck { .. } => "BMKG nowcast RSS"@,
            TaskView::WarningDetail { .. } => "BMKG CAP alert"@,
            TaskView::Provinces => "Kemendagri via cahyadsn/wilayah"@,
            TaskView::Children { .. } => "Kemendagri via cahyadsn/wilayah"@,
            TaskView::RegionSearch { .. } => "Kemendagri via cahyadsn/wilayah"@,
            TaskView::Region { .. } => "Kemendagri via cahyadsn/wilayah"@,
        }
    }

    /// For how many seconds a response may be kept.
    pub open spec fn ttl(self) -> nat {
        match self {
            TaskView::LatestEarthquake => 60,
            TaskView::RecentEarthquakes => 300,
            TaskView::FeltEarthquakes => 60,
            TaskView::NearbyEarthquakes { .. } => 300,
            TaskView::FindWeather { .. } => 600,
            TaskView::WeatherForecast { .. } => 600,
            TaskView::CurrentWeather { .. } => 600,
            TaskView::Warnings { .. } => 120,
            TaskView::WarningCheck { .. } => 120,
            TaskView::WarningDetail { .. } => 900,
            TaskView::Provinces => 86_400,
            TaskView::Children { .. } => 86_400,
            TaskView::RegionSearch { .. } => 86_400,
            TaskView::Region { .. } => 86_400,
        }
    }
}

impl Task {
    pub fn source(&self) -> (r: &'static str)
        ensures
            r@ == self@.source(),
    {
        match self {
            Task::LatestEarthquake => "BMKG autogempa",
            Task::RecentEarthquakes => "BMKG gempaterkini",
            Task::FeltEarthquakes => "BMKG gempadirasakan",
            Task::NearbyEarthquakes { .. } => "BMKG gempaterkini + gempadirasakan",
            Task::FindWeather { .. } => "BMKG prakiraan-cuaca",
            Task::WeatherForecast { .. } => "BMKG prakiraan-cuaca",
            Task::CurrentWeather { .. } => "BMKG prakiraan-cuaca",
            Task::Warnings { .. } => "BMKG nowcast RSS",
            Task::WarningCheck { .. } => "BMKG nowcast RSS",
            Task::WarningDetail { .. } => "BMKG CAP alert",
            Task::Provinces => "Kemendagri via cahyadsn/wilayah",
            Task::Children { .. } => "Kemendagri via cahyadsn/wilayah",
            Task::RegionSearch { .. } => "Kemendagri via cahyadsn/wilayah",
            Task::Region { .. } => "Kemendagri via cahyadsn/wilayah",
        }
    }

    pub fn ttl(&self) -> (r: u32)
        ensures
            r == self@.ttl(),
            0 < r <= 86_400,
    {
        match self {
            Task::LatestEarthquake => crate::earthquake::TTL_LATEST,
            Task::RecentEarthquakes => crate::earthquake::TTL_RECENT,
            Task::FeltEarthquakes => crate::earthquake::TTL_FELT,
            Task::NearbyEarthquakes { .. } => crate::earthquake::TTL_RECENT,
            Task::FindWeather { .. } => crate::weather::TTL,
            Task::WeatherForecast { .. } => crate::weather::TTL,
            Task::CurrentWeather { .. } => crate::weather::TTL,
            Task::Warnings { .. } => crate::nowcast::TTL_INDEX,
            Task::WarningCheck { .. } => crate::nowcast::TTL_INDEX,
            Task::WarningDetail { .. } => crate::nowcast::TTL_DETAIL,
            Task::Provinces => crate::wilayah::TTL,
            Task::Children { .. } => crate::wilayah::TTL,
            Task::RegionSearch { .. } => crate::wilayah::TTL,
            Task::Region { .. } => crate::wilayah::TTL,
        }
    }
}

} // verus!

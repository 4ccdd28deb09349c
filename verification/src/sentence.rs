//! Classification of NMEA sentences and satellite systems.

use crate::strutil::{contains_seq, contains_sub, starts_with_seq, starts_with_str};
use vstd::prelude::*;

verus! {

/// The sentence kinds the bridge consumes; everything else is `Unknown`.
#[derive(Clone, Copy, PartialEq, Eq, Structural, Debug)]
pub enum NmeaSentence {
    GSV,
    GGA,
    RMC,
    VTG,
    GSA,
    GLL,
    TXT,
    Unknown,
}

/// Classification of a sentence body: the first of the known three-letter
/// identifiers that occurs anywhere in the body wins; none means `Unknown`.
pub open spec fn spec_classify(s: Seq<char>) -> NmeaSentence {
    if contains_seq(s, "GSV"@) {
        NmeaSentence::GSV
    } else if contains_seq(s, "GGA"@) {
        NmeaSentence::GGA
    } else if contains_seq(s, "RMC"@) {
        NmeaSentence::RMC
    } else if contains_seq(s, "VTG"@) {
        NmeaSentence::VTG
    } else if contains_seq(s, "GSA"@) {
        NmeaSentence::GSA
    } else if contains_seq(s, "GLL"@) {
        NmeaSentence::GLL
    } else if contains_seq(s, "TXT"@) {
        NmeaSentence::TXT
    } else {
        NmeaSentence::Unknown
    }
}

impl NmeaSentence {
    /// Classifies a sentence body by its three-letter identifier.
    pub fn from_str(s: &str) -> (r: Self)
        ensures
            r == spec_classify(s@),
    {
        if contains_sub(s, "GSV") {
            NmeaSentence::GSV
        } else if contains_sub(s, "GGA") {
            NmeaSentence::GGA
        } else if contains_sub(s, "RMC") {
            NmeaSentence::RMC
        } else if contains_sub(s, "VTG") {
            NmeaSentence::VTG
        } else if contains_sub(s, "GSA") {
            NmeaSentence::GSA
        } else if contains_sub(s, "GLL") {
            NmeaSentence::GLL
        } else if contains_sub(s, "TXT") {
            NmeaSentence::TXT
        } else {
            NmeaSentence::Unknown
        }
    }
}

/// The satellite system a GSV sentence reports on.
#[derive(Clone, Copy, PartialEq, Eq, Structural, Debug)]
pub enum SatelliteType {
    GPS,
    GLONASS,
    Galileo,
    BeiDou,
    Unknown,
}

/// The display name of a satellite system.
pub open spec fn spec_sat_type_str(t: SatelliteType) -> Seq<char> {
    match t {
        SatelliteType::GPS => "GPS"@,
        SatelliteType::GLONASS => "GLONASS"@,
        SatelliteType::Galileo => "Galileo"@,
        SatelliteType::BeiDou => "BeiDou"@,
        SatelliteType::Unknown => "Unknown"@,
    }
}

impl SatelliteType {
    /// The display name of the satellite system.
    pub fn as_str(&self) -> (r: &'static str)
        ensures
            r@ == spec_sat_type_str(*self),
    {
        match self {
            SatelliteType::GPS => "GPS",
            SatelliteType::GLONASS => "GLONASS",
            SatelliteType::Galileo => "Galileo",
            SatelliteType::BeiDou => "BeiDou",
            SatelliteType::Unknown => "Unknown",
        }
    }
}

/// The satellite system named by the two-character talker prefix of a GSV
/// sentence body; anything else (a too-short body included) is `Unknown`.
pub open spec fn spec_sat_type_of(body: Seq<char>) -> SatelliteType {
    if starts_with_seq(body, "GP"@) {
        SatelliteType::GPS
    } else if starts_with_seq(body, "GL"@) {
        SatelliteType::GLONASS
    } else if starts_with_seq(body, "GA"@) {
        SatelliteType::Galileo
    } else if starts_with_seq(body, "BD"@) {
        SatelliteType::BeiDou
    } else {
        SatelliteType::Unknown
    }
}

/// Reads the satellite system from the talker prefix of a GSV body.
pub fn sat_type_of(body: &str) -> (r: SatelliteType)
    ensures
        r == spec_sat_type_of(body@),
{
    if starts_with_str(body, "GP") {
        SatelliteType::GPS
    } else if starts_with_str(body, "GL") {
        SatelliteType::GLONASS
    } else if starts_with_str(body, "GA") {
        SatelliteType::Galileo
    } else if starts_with_str(body, "BD") {
        SatelliteType::BeiDou
    } else {
        SatelliteType::Unknown
    }
}

} // verus!

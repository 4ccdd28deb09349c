//! Decoding complete NMEA sentences into publish commands: for each
//! consumed sentence kind, the topics and payloads the bridge sends to the
//! bus, in order.

use crate::codec::{
    spec_parse_coordinate, spec_parse_date, spec_parse_dec_or_zero, spec_parse_uint,
    spec_parse_utc_time, Coordinate, parse_date, parse_dec_or_zero, parse_latitude,
    parse_longitude, parse_uint_or_zero, parse_utc_time, format_dec, Dec,
    spec_dec_str,
};
use crate::sentence::{spec_classify, spec_sat_type_of, spec_sat_type_str, sat_type_of,
    NmeaSentence, SatelliteType};
use crate::strutil::{
    bool_str, concat_str, contains_seq, contains_sub, find_char, find_sub, first_index_of,
    first_occurrence_of, split_char, split_on, splitn_char, splitn_on, spec_uint_str,
    spec_uint_str_pad, str_eq, u64_to_string, u64_to_two_digits,
};
use vstd::prelude::*;
use vstd::string::StrSliceExecFns;
use vstd::string::StringExecFns;

verus! {

/// A payload to publish: either a finished string, or an exact coordinate
/// that the caller renders at the boundary.
pub enum PayloadValue {
    Text(String),
    Coord(Coordinate),
}

/// One publish the decoder asks for.
pub struct PublishCommand {
    pub topic: String,
    pub payload: PayloadValue,
    pub qos: i32,
}

/// The mathematical shape of a payload.
pub ghost enum PayloadView {
    Text(Seq<char>),
    Coord(Coordinate),
}

/// The mathematical shape of a publish command.
pub ghost struct CmdView {
    pub topic: Seq<char>,
    pub payload: PayloadView,
    pub qos: int,
}

impl View for PayloadValue {
    type V = PayloadView;

    open spec fn view(&self) -> PayloadView {
        match self {
            PayloadValue::Text(s) => PayloadView::Text(s@),
            PayloadValue::Coord(c) => PayloadView::Coord(*c),
        }
    }
}

impl DeepView for PayloadValue {
    type V = PayloadView;

    open spec fn deep_view(&self) -> PayloadView {
        self.view()
    }
}

impl View for PublishCommand {
    type V = CmdView;

    open spec fn view(&self) -> CmdView {
        CmdView { topic: self.topic@, payload: self.payload@, qos: self.qos as int }
    }
}

impl DeepView for PublishCommand {
    type V = CmdView;

    open spec fn deep_view(&self) -> CmdView {
        self.view()
    }
}

/// The HH:MM:SS rendering of a decoded time.
pub open spec fn spec_time_str(t: (int, int, int)) -> Seq<char> {
    spec_uint_str_pad(t.0 as nat, 2) + ":"@ + spec_uint_str_pad(t.1 as nat, 2) + ":"@
        + spec_uint_str_pad(t.2 as nat, 2)
}

/// Renders a decoded time as HH:MM:SS.
fn time_str(h: u32, m: u32, s: u32) -> (r: String)
    requires
        h <= 99 && m <= 99 && s <= 99,
    ensures
        r@ == spec_time_str((h as int, m as int, s as int)),
{
    let mut r = u64_to_two_digits(h as u64);
    r.append(":");
    let ms = u64_to_two_digits(m as u64);
    r.append(ms.as_str());
    r.append(":");
    let ss = u64_to_two_digits(s as u64);
    r.append(ss.as_str());
    assert(r@ =~= spec_time_str((h as int, m as int, s as int)));
    r
}

/// The DD.MM.20YY rendering of a decoded date: the two-digit year is
/// prefixed with the literal century digits.
pub open spec fn spec_date_str(d: (int, int, int)) -> Seq<char> {
    spec_uint_str_pad(d.0 as nat, 2) + "."@ + spec_uint_str_pad(d.1 as nat, 2) + ".20"@
        + spec_uint_str_pad(d.2 as nat, 2)
}

/// Renders a decoded date as DD.MM.20YY.
fn date_str(d: u32, m: u32, y: u32) -> (r: String)
    requires
        d <= 99 && m <= 99 && y <= 99,
    ensures
        r@ == spec_date_str((d as int, m as int, y as int)),
{
    let mut r = u64_to_two_digits(d as u64);
    r.append(".");
    let ms = u64_to_two_digits(m as u64);
    r.append(ms.as_str());
    r.append(".20");
    let ys = u64_to_two_digits(y as u64);
    r.append(ys.as_str());
    assert(r@ =~= spec_date_str((d as int, m as int, y as int)));
    r
}

/// Commands of a fix-data sentence (altitude and fix quality), none when
/// the sentence has fewer than ten fields.
pub open spec fn spec_gga_commands(body: Seq<char>, base: Seq<char>) -> Seq<CmdView> {
    let parts = split_char(body, ',');
    if parts.len() >= 10 {
        seq![
            CmdView {
                topic: base + "ALT"@,
                payload: PayloadView::Text(spec_dec_str(spec_parse_dec_or_zero(parts[9]))),
                qos: 0,
            },
            CmdView {
                topic: base + "QTY"@,
                payload: PayloadView::Text(spec_uint_str(spec_parse_uint(parts[6]) as nat)),
                qos: 0,
            },
        ]
    } else {
        Seq::<CmdView>::empty()
    }
}

/// Decodes a fix-data sentence body into its publish commands.
pub fn decode_gga(body: &str, base_topic: &str) -> (cmds: Vec<PublishCommand>)
    ensures
        cmds.deep_view() == spec_gga_commands(body@, base_topic@),
{
    let parts = split_on(body, ',');
    let mut cmds: Vec<PublishCommand> = Vec::new();
    if parts.len() < 10 {
        assert(cmds.deep_view() =~= spec_gga_commands(body@, base_topic@));
        return cmds;
    }
    let alt: Dec = parse_dec_or_zero(parts[9].as_str());
    cmds.push(
        PublishCommand {
            topic: concat_str(base_topic, "ALT"),
            payload: PayloadValue::Text(format_dec(&alt)),
            qos: 0,
        },
    );
    let qty: u64 = parse_uint_or_zero(parts[6].as_str());
    cmds.push(
        PublishCommand {
            topic: concat_str(base_topic, "QTY"),
            payload: PayloadValue::Text(u64_to_string(qty)),
            qos: 0,
        },
    );
    assert(cmds.deep_view() =~= spec_gga_commands(body@, base_topic@));
    cmds
}

/// Commands of a course-and-speed sentence (course, speed in knots, speed
/// in km/h), none when the sentence has fewer than nine fields.
pub open spec fn spec_vtg_commands(body: Seq<char>, base: Seq<char>) -> Seq<CmdView> {
    let parts = split_char(body, ',');
    if parts.len() >= 9 {
        seq![
            CmdView {
                topic: base + "CRS"@,
                payload: PayloadView::Text(spec_dec_str(spec_parse_dec_or_zero(parts[1]))),
                qos: 0,
            },
            CmdView {
                topic: base + "SPD_KTS"@,
                payload: PayloadView::Text(spec_dec_str(spec_parse_dec_or_zero(parts[5]))),
                qos: 0,
            },
            CmdView {
                topic: base + "SPD_KPH"@,
                payload: PayloadView::Text(spec_dec_str(spec_parse_dec_or_zero(parts[7]))),
                qos: 0,
            },
        ]
    } else {
        Seq::<CmdView>::empty()
    }
}

/// Decodes a course-and-speed sentence body into its publish commands.
pub fn decode_vtg(body: &str, base_topic: &str) -> (cmds: Vec<PublishCommand>)
    ensures
        cmds.deep_view() == spec_vtg_commands(body@, base_topic@),
{
    let parts = split_on(body, ',');
    let mut cmds: Vec<PublishCommand> = Vec::new();
    if parts.len() < 9 {
        assert(cmds.deep_view() =~= spec_vtg_commands(body@, base_topic@));
        return cmds;
    }
    let course = parse_dec_or_zero(parts[1].as_str());
    cmds.push(
        PublishCommand {
            topic: concat_str(base_topic, "CRS"),
            payload: PayloadValue::Text(format_dec(&course)),
            qos: 0,
        },
    );
    let knots = parse_dec_or_zero(parts[5].as_str());
    cmds.push(
        PublishCommand {
            topic: concat_str(base_topic, "SPD_KTS"),
            payload: PayloadValue::Text(format_dec(&knots)),
            qos: 0,
        },
    );
    let kph = parse_dec_or_zero(parts[7].as_str());
    cmds.push(
        PublishCommand {
            topic: concat_str(base_topic, "SPD_KPH"),
            payload: PayloadValue::Text(format_dec(&kph)),
            qos: 0,
        },
    );
    assert(cmds.deep_view() =~= spec_vtg_commands(body@, base_topic@));
    cmds
}

/// Commands of a recommended-minimum-data sentence: time, date (on its
/// fixed absolute topic), latitude, longitude and speed, in that order;
/// none when the sentence has fewer than ten fields.
pub open spec fn spec_rmc_commands(body: Seq<char>, base: Seq<char>) -> Seq<CmdView> {
    let parts = split_char(body, ',');
    if parts.len() >= 10 {
        seq![
            CmdView {
                topic: base + "TME"@,
                payload: PayloadView::Text(spec_time_str(spec_parse_utc_time(parts[1]))),
                qos: 0,
            },
            CmdView {
                topic: "/GOLF86/GPS/DTE"@,
                payload: PayloadView::Text(spec_date_str(spec_parse_date(parts[9]))),
                qos: 0,
            },
            CmdView {
                topic: base + "LAT"@,
                payload: PayloadView::Coord(spec_parse_coordinate(parts[3], parts[4], 2)),
                qos: 0,
            },
            CmdView {
                topic: base + "LNG"@,
                payload: PayloadView::Coord(spec_parse_coordinate(parts[5], parts[6], 3)),
                qos: 0,
            },
            CmdView {
                topic: base + "SPD"@,
                payload: PayloadView::Text(spec_dec_str(spec_parse_dec_or_zero(parts[7]))),
                qos: 0,
            },
        ]
    } else {
        Seq::<CmdView>::empty()
    }
}

/// Decodes a recommended-minimum-data sentence body into its publish
/// commands.
pub fn decode_rmc(body: &str, base_topic: &str) -> (cmds: Vec<PublishCommand>)
    ensures
        cmds.deep_view() == spec_rmc_commands(body@, base_topic@),
{
    let parts = split_on(body, ',');
    let mut cmds: Vec<PublishCommand> = Vec::new();
    if parts.len() < 10 {
        assert(cmds.deep_view() =~= spec_rmc_commands(body@, base_topic@));
        return cmds;
    }
    let (hour, minute, second) = parse_utc_time(parts[1].as_str());
    cmds.push(
        PublishCommand {
            topic: concat_str(base_topic, "TME"),
            payload: PayloadValue::Text(time_str(hour, minute, second)),
            qos: 0,
        },
    );
    let (day, month, year) = parse_date(parts[9].as_str());
    cmds.push(
        PublishCommand {
            topic: String::from_str("/GOLF86/GPS/DTE"),
            payload: PayloadValue::Text(date_str(day, month, year)),
            qos: 0,
        },
    );
    let lat = parse_latitude(parts[3].as_str(), parts[4].as_str());
    cmds.push(
        PublishCommand {
            topic: concat_str(base_topic, "LAT"),
            payload: PayloadValue::Coord(lat),
            qos: 0,
        },
    );
    let lng = parse_longitude(parts[5].as_str(), parts[6].as_str());
    cmds.push(
        PublishCommand {
            topic: concat_str(base_topic, "LNG"),
            payload: PayloadValue::Coord(lng),
            qos: 0,
        },
    );
    let speed = parse_dec_or_zero(parts[7].as_str());
    cmds.push(
        PublishCommand {
            topic: concat_str(base_topic, "SPD"),
            payload: PayloadValue::Text(format_dec(&speed)),
            qos: 0,
        },
    );
    assert(cmds.deep_view() =~= spec_rmc_commands(body@, base_topic@));
    cmds
}

/// Commands of a geographic-position sentence: time, latitude and
/// longitude, in that order; none when the sentence has fewer than seven
/// fields.
pub open spec fn spec_gll_commands(body: Seq<char>, base: Seq<char>) -> Seq<CmdView> {
    let parts = split_char(body, ',');
    if parts.len() >= 7 {
        seq![
            CmdView {
                topic: base + "GLL_TME"@,
                payload: PayloadView::Text(spec_time_str(spec_parse_utc_time(parts[5]))),
                qos: 0,
            },
            CmdView {
                topic: base + "GLL_LAT"@,
                payload: PayloadView::Coord(spec_parse_coordinate(parts[1], parts[2], 2)),
                qos: 0,
            },
            CmdView {
                topic: base + "GLL_LNG"@,
                payload: PayloadView::Coord(spec_parse_coordinate(parts[3], parts[4], 3)),
                qos: 0,
            },
        ]
    } else {
        Seq::<CmdView>::empty()
    }
}

/// Decodes a geographic-position sentence body into its publish commands.
pub fn decode_gll(body: &str, base_topic: &str) -> (cmds: Vec<PublishCommand>)
    ensures
        cmds.deep_view() == spec_gll_commands(body@, base_topic@),
{
    let parts = split_on(body, ',');
    let mut cmds: Vec<PublishCommand> = Vec::new();
    if parts.len() < 7 {
        assert(cmds.deep_view() =~= spec_gll_commands(body@, base_topic@));
        return cmds;
    }
    let (hour, minute, second) = parse_utc_time(parts[5].as_str());
    cmds.push(
        PublishCommand {
            topic: concat_str(base_topic, "GLL_TME"),
            payload: PayloadValue::Text(time_str(hour, minute, second)),
            qos: 0,
        },
    );
    let lat = parse_latitude(parts[1].as_str(), parts[2].as_str());
    cmds.push(
        PublishCommand {
            topic: concat_str(base_topic, "GLL_LAT"),
            payload: PayloadValue::Coord(lat),
            qos: 0,
        },
    );
    let lng = parse_longitude(parts[3].as_str(), parts[4].as_str());
    cmds.push(
        PublishCommand {
            topic: concat_str(base_topic, "GLL_LNG"),
            payload: PayloadValue::Coord(lng),
            qos: 0,
        },
    );
    assert(cmds.deep_view() =~= spec_gll_commands(body@, base_topic@));
    cmds
}

/// The fix-type name a DOP sentence's third field denotes.
pub open spec fn spec_fix_type_str(s: Seq<char>) -> Seq<char> {
    if s == "1"@ {
        "Not Available"@
    } else if s == "2"@ {
        "2D"@
    } else if s == "3"@ {
        "3D"@
    } else {
        "Unknown"@
    }
}

/// Commands of a DOP-and-active-satellites sentence: the fix type on the
/// reported vehicle's topic; none when the sentence has fewer than
/// seventeen fields.
pub open spec fn spec_gsa_commands(body: Seq<char>, base: Seq<char>) -> Seq<CmdView> {
    let parts = split_char(body, ',');
    if parts.len() >= 17 {
        seq![
            CmdView {
                topic: base + "SAT/VEHICLES/"@ + spec_uint_str(spec_parse_uint(parts[3]) as nat)
                    + "/FIX_TYPE"@,
                payload: PayloadView::Text(spec_fix_type_str(parts[2])),
                qos: 0,
            },
        ]
    } else {
        Seq::<CmdView>::empty()
    }
}

/// Decodes a DOP-and-active-satellites sentence body into its publish
/// commands.
pub fn decode_gsa(body: &str, base_topic: &str) -> (cmds: Vec<PublishCommand>)
    ensures
        cmds.deep_view() == spec_gsa_commands(body@, base_topic@),
{
    let parts = split_on(body, ',');
    let mut cmds: Vec<PublishCommand> = Vec::new();
    if parts.len() < 17 {
        assert(cmds.deep_view() =~= spec_gsa_commands(body@, base_topic@));
        return cmds;
    }
    let fix_type: &'static str = if str_eq(parts[2].as_str(), "1") {
        "Not Available"
    } else if str_eq(parts[2].as_str(), "2") {
        "2D"
    } else if str_eq(parts[2].as_str(), "3") {
        "3D"
    } else {
        "Unknown"
    };
    let prn: u64 = parse_uint_or_zero(parts[3].as_str());
    let mut topic = concat_str(base_topic, "SAT/VEHICLES/");
    let prn_str = u64_to_string(prn);
    topic.append(prn_str.as_str());
    topic.append("/FIX_TYPE");
    cmds.push(
        PublishCommand { topic, payload: PayloadValue::Text(String::from_str(fix_type)), qos: 0 },
    );
    assert(cmds.deep_view() =~= spec_gsa_commands(body@, base_topic@));
    cmds
}

/// The text following the first occurrence of the marker `m` in `message`.
pub open spec fn spec_marker_value(message: Seq<char>, m: Seq<char>) -> Seq<char> {
    message.subrange(first_occurrence_of(message, m) + m.len(), message.len() as int)
}

/// Commands of a text sentence. The text is the fourth logical field, less
/// an embedded leading index when one is there. A nuisance buffer report
/// silences the whole sentence; otherwise the first of the known key
/// markers that occurs anywhere in the message has the text after its
/// equals sign published on the marker's topic; text without a marker
/// publishes nothing.
pub open spec fn spec_txt_commands(body: Seq<char>, base: Seq<char>) -> Seq<CmdView> {
    let pieces = splitn_char(body, ',', 4);
    if pieces.len() == 4 {
        let text = pieces[3];
        let sub = splitn_char(text, ',', 2);
        let message = if sub.len() == 2 {
            sub[1]
        } else {
            text
        };
        if contains_seq(message, "txbuf alloc"@) {
            Seq::<CmdView>::empty()
        } else if first_occurrence_of(message, "ANTSTATUS="@) >= 0 {
            seq![
                CmdView {
                    topic: base + "SAT/GLOBAL/ANTSTATUS"@,
                    payload: PayloadView::Text(spec_marker_value(message, "ANTSTATUS="@)),
                    qos: 0,
                },
            ]
        } else if first_occurrence_of(message, "PF="@) >= 0 {
            seq![
                CmdView {
                    topic: base + "SAT/GLOBAL/PF"@,
                    payload: PayloadView::Text(spec_marker_value(message, "PF="@)),
                    qos: 0,
                },
            ]
        } else if first_occurrence_of(message, "GNSS OTP="@) >= 0 {
            seq![
                CmdView {
                    topic: base + "SAT/GLOBAL/GNSS_OTP"@,
                    payload: PayloadView::Text(spec_marker_value(message, "GNSS OTP="@)),
                    qos: 0,
                },
            ]
        } else {
            Seq::<CmdView>::empty()
        }
    } else {
        Seq::<CmdView>::empty()
    }
}

/// Decodes a text sentence body into its publish commands.
pub fn decode_txt(body: &str, base_topic: &str) -> (cmds: Vec<PublishCommand>)
    ensures
        cmds.deep_view() == spec_txt_commands(body@, base_topic@),
{
    let pieces = splitn_on(body, ',', 4);
    let mut cmds: Vec<PublishCommand> = Vec::new();
    if pieces.len() != 4 {
        assert(cmds.deep_view() =~= spec_txt_commands(body@, base_topic@));
        return cmds;
    }
    let text = pieces[3].as_str();
    let sub = splitn_on(text, ',', 2);
    let message: &str = if sub.len() == 2 {
        sub[1].as_str()
    } else {
        text
    };
    if contains_sub(message, "txbuf alloc") {
        assert(cmds.deep_view() =~= spec_txt_commands(body@, base_topic@));
        return cmds;
    }
    let n: usize = message.unicode_len();
    if let Some(at) = find_sub(message, "ANTSTATUS=") {
        let value = message.substring_char(at + "ANTSTATUS=".unicode_len(), n);
        cmds.push(
            PublishCommand {
                topic: concat_str(base_topic, "SAT/GLOBAL/ANTSTATUS"),
                payload: PayloadValue::Text(String::from_str(value)),
                qos: 0,
            },
        );
    } else if let Some(at) = find_sub(message, "PF=") {
        let value = message.substring_char(at + "PF=".unicode_len(), n);
        cmds.push(
            PublishCommand {
                topic: concat_str(base_topic, "SAT/GLOBAL/PF"),
                payload: PayloadValue::Text(String::from_str(value)),
                qos: 0,
            },
        );
    } else if let Some(at) = find_sub(message, "GNSS OTP=") {
        let value = message.substring_char(at + "GNSS OTP=".unicode_len(), n);
        cmds.push(
            PublishCommand {
                topic: concat_str(base_topic, "SAT/GLOBAL/GNSS_OTP"),
                payload: PayloadValue::Text(String::from_str(value)),
                qos: 0,
            },
        );
    }
    assert(cmds.deep_view() =~= spec_txt_commands(body@, base_topic@));
    cmds
}

/// The satellite description line published per reported vehicle.
pub open spec fn spec_sat_info(
    prn: nat,
    styp: SatelliteType,
    elevation: nat,
    azimuth: nat,
    snr: nat,
) -> Seq<char> {
    "PRN: "@ + spec_uint_str(prn) + ", Type: "@ + spec_sat_type_str(styp) + ", Elevation: "@
        + spec_uint_str(elevation) + ", Azimuth: "@ + spec_uint_str(azimuth) + ", SNR: "@
        + spec_uint_str(snr) + ", In View: "@ + (if snr > 0 {
        "true"@
    } else {
        "false"@
    })
}

/// Renders the satellite description line; a satellite is in view exactly
/// when its signal-to-noise ratio is positive.
fn sat_info(prn: u64, styp: SatelliteType, elevation: u64, azimuth: u64, snr: u64) -> (r: String)
    ensures
        r@ == spec_sat_info(prn as nat, styp, elevation as nat, azimuth as nat, snr as nat),
{
    let mut r = String::from_str("PRN: ");
    let prn_str = u64_to_string(prn);
    r.append(prn_str.as_str());
    r.append(", Type: ");
    r.append(styp.as_str());
    r.append(", Elevation: ");
    let elev_str = u64_to_string(elevation);
    r.append(elev_str.as_str());
    r.append(", Azimuth: ");
    let azi_str = u64_to_string(azimuth);
    r.append(azi_str.as_str());
    r.append(", SNR: ");
    let snr_str = u64_to_string(snr);
    r.append(snr_str.as_str());
    r.append(", In View: ");
    r.append(bool_str(snr > 0));
    assert(r@ =~= spec_sat_info(prn as nat, styp, elevation as nat, azimuth as nat, snr as nat));
    r
}

/// The command for the satellite group `i` of a satellites-in-view
/// sentence: four fields starting at index `4 + 4 * i` — PRN, elevation,
/// azimuth, signal-to-noise ratio — published on the vehicle's topic.
pub open spec fn spec_gsv_sat_cmd(
    parts: Seq<Seq<char>>,
    styp: SatelliteType,
    base: Seq<char>,
    i: int,
) -> CmdView {
    let idx: int = 4 + 4 * i;
    let prn: nat = spec_parse_uint(parts[idx]) as nat;
    let elevation: nat = spec_parse_uint(parts[idx + 1]) as nat;
    let azimuth: nat = spec_parse_uint(parts[idx + 2]) as nat;
    let snr: nat = spec_parse_uint(parts[idx + 3]) as nat;
    CmdView {
        topic: base + "SAT/VEHICLES/"@ + spec_uint_str(prn),
        payload: PayloadView::Text(spec_sat_info(prn, styp, elevation, azimuth, snr)),
        qos: 0,
    }
}

/// Commands of a satellites-in-view sentence: the total count, then one
/// description per complete four-field satellite group; none when the
/// sentence has fewer than eight fields.
pub open spec fn spec_gsv_commands(body: Seq<char>, base: Seq<char>) -> Seq<CmdView> {
    let parts = split_char(body, ',');
    if parts.len() >= 8 {
        let styp = spec_sat_type_of(body);
        seq![
            CmdView {
                topic: base + "SAT/GLOBAL/NUM"@,
                payload: PayloadView::Text(spec_uint_str(spec_parse_uint(parts[3]) as nat)),
                qos: 0,
            },
        ] + Seq::new(
            ((parts.len() - 4) / 4) as nat,
            |i: int| spec_gsv_sat_cmd(parts, styp, base, i),
        )
    } else {
        Seq::<CmdView>::empty()
    }
}

/// Decodes a satellites-in-view sentence body into its publish commands.
pub fn decode_gsv(body: &str, base_topic: &str) -> (cmds: Vec<PublishCommand>)
    ensures
        cmds.deep_view() == spec_gsv_commands(body@, base_topic@),
{
    let styp = sat_type_of(body);
    let parts = split_on(body, ',');
    let mut cmds: Vec<PublishCommand> = Vec::new();
    if parts.len() < 8 {
        assert(cmds.deep_view() =~= spec_gsv_commands(body@, base_topic@));
        return cmds;
    }
    let num_satellites: u64 = parse_uint_or_zero(parts[3].as_str());
    cmds.push(
        PublishCommand {
            topic: concat_str(base_topic, "SAT/GLOBAL/NUM"),
            payload: PayloadValue::Text(u64_to_string(num_satellites)),
            qos: 0,
        },
    );
    let parts_len: usize = parts.len();
    let count: usize = (parts_len - 4) / 4;
    let ghost target = spec_gsv_commands(body@, base_topic@);
    assert(cmds.deep_view() =~= target.subrange(0, 1));
    let mut i: usize = 0;
    while i < count
        invariant
            i <= count,
            parts_len == parts@.len(),
            8 <= parts_len,
            count == (parts_len - 4) / 4,
            parts@.len() == parts.deep_view().len(),
            parts.deep_view() == split_char(body@, ','),
            styp == spec_sat_type_of(body@),
            target == spec_gsv_commands(body@, base_topic@),
            target.len() == 1 + count,
            cmds.deep_view() =~= target.subrange(0, 1 + i as int),
        decreases count - i,
    {
        proof {
            assert(4 * count <= parts_len - 4);
        }
        let idx: usize = 4 + 4 * i;
        let ghost pv = parts.deep_view();
        proof {
            assert(pv[idx as int] == parts@[idx as int]@);
            assert(pv[idx as int + 1] == parts@[idx as int + 1]@);
            assert(pv[idx as int + 2] == parts@[idx as int + 2]@);
            assert(pv[idx as int + 3] == parts@[idx as int + 3]@);
        }
        let prn: u64 = parse_uint_or_zero(parts[idx].as_str());
        let elevation: u64 = parse_uint_or_zero(parts[idx + 1].as_str());
        let azimuth: u64 = parse_uint_or_zero(parts[idx + 2].as_str());
        let snr: u64 = parse_uint_or_zero(parts[idx + 3].as_str());
        let mut topic = concat_str(base_topic, "SAT/VEHICLES/");
        let prn_str = u64_to_string(prn);
        topic.append(prn_str.as_str());
        let cmd = PublishCommand {
            topic,
            payload: PayloadValue::Text(sat_info(prn, styp, elevation, azimuth, snr)),
            qos: 0,
        };
        let ghost cmd_view = cmd@;
        let ghost old_vs = cmds@;
        let ghost old_dv = cmds.deep_view();
        proof {
            let spec_cmd = spec_gsv_sat_cmd(pv, styp, base_topic@, i as int);
            assert(cmd_view.topic =~= spec_cmd.topic);
            assert(cmd_view.payload == spec_cmd.payload);
            assert(cmd_view == spec_cmd);
            assert(target[1 + i as int] == spec_cmd);
        }
        cmds.push(cmd);
        proof {
            assert(cmds@ == old_vs.push(cmds@[old_vs.len() as int]));
            assert(cmds@[old_vs.len() as int]@ == cmd_view);
            assert forall|k: int| 0 <= k < old_dv.len() implies cmds.deep_view()[k] == old_dv[k] by {
                assert(cmds@[k] == old_vs[k]);
            }
            assert(cmds.deep_view()[old_dv.len() as int] == cmds@[old_dv.len() as int].deep_view());
            assert(cmds@[old_dv.len() as int].deep_view() == cmd_view);
            assert(target.subrange(0, 1 + i as int + 1)[old_dv.len() as int] == cmd_view);
            assert(cmds.deep_view().len() == old_dv.len() + 1);
            assert(cmds.deep_view() =~= target.subrange(0, 1 + i as int + 1));
        }
        i = i + 1;
    }
    proof {
        assert(target.subrange(0, target.len() as int) =~= target);
    }
    cmds
}

/// The commands one complete sentence produces. A sentence that does not
/// start with `$` or has no checksum marker produces none; otherwise the
/// body — between the `$` and the first `*` — is classified by its
/// three-letter identifier and decoded; unknown kinds produce none.
pub open spec fn spec_process(data: Seq<char>, base: Seq<char>) -> Seq<CmdView> {
    if data.len() == 0 || data[0] != '$' || first_index_of(data, '*') < 0 {
        Seq::<CmdView>::empty()
    } else {
        let body = data.subrange(1, first_index_of(data, '*'));
        match spec_classify(body) {
            NmeaSentence::GSV => spec_gsv_commands(body, base),
            NmeaSentence::GGA => spec_gga_commands(body, base),
            NmeaSentence::RMC => spec_rmc_commands(body, base),
            NmeaSentence::VTG => spec_vtg_commands(body, base),
            NmeaSentence::GSA => spec_gsa_commands(body, base),
            NmeaSentence::GLL => spec_gll_commands(body, base),
            NmeaSentence::TXT => spec_txt_commands(body, base),
            NmeaSentence::Unknown => Seq::<CmdView>::empty(),
        }
    }
}

/// Decodes one complete sentence into the publishes it asks for.
pub fn process_gps_data(data: &str, base_topic: &str) -> (cmds: Vec<PublishCommand>)
    ensures
        cmds.deep_view() == spec_process(data@, base_topic@),
{
    if data.is_empty() || data.get_char(0) != '$' {
        let cmds: Vec<PublishCommand> = Vec::new();
        assert(cmds.deep_view() =~= spec_process(data@, base_topic@));
        return cmds;
    }
    match find_char(data, '*') {
        None => {
            let cmds: Vec<PublishCommand> = Vec::new();
            assert(cmds.deep_view() =~= spec_process(data@, base_topic@));
            cmds
        },
        Some(star) => {
            let body = data.substring_char(1, star);
            match NmeaSentence::from_str(body) {
                NmeaSentence::GSV => decode_gsv(body, base_topic),
                NmeaSentence::GGA => decode_gga(body, base_topic),
                NmeaSentence::RMC => decode_rmc(body, base_topic),
                NmeaSentence::VTG => decode_vtg(body, base_topic),
                NmeaSentence::GSA => decode_gsa(body, base_topic),
                NmeaSentence::GLL => decode_gll(body, base_topic),
                NmeaSentence::TXT => decode_txt(body, base_topic),
                NmeaSentence::Unknown => {
                    let cmds: Vec<PublishCommand> = Vec::new();
                    assert(cmds.deep_view() =~= spec_process(data@, base_topic@));
                    cmds
                },
            }
        },
    }
}

} // verus!

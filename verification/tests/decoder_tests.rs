//! Tests of sentence classification and decoding into publish commands.

use gps_to_mqtt::decoder::{
    decode_gga, decode_gll, decode_gsa, decode_gsv, decode_txt, decode_rmc, decode_vtg,
    process_gps_data, PayloadValue, PublishCommand,
};
use gps_to_mqtt::sentence::{NmeaSentence, SatelliteType};

const BASE: &str = "/GOLF86/GPS/";

fn text_payload(cmd: &PublishCommand) -> &str {
    match &cmd.payload {
        PayloadValue::Text(s) => s.as_str(),
        PayloadValue::Coord(_) => panic!("expected a text payload"),
    }
}

#[test]
fn test_parse_and_display_gsv() {
    let data = "GPGSV,3,1,11,07,79,045,42,08,62,272,43,09,59,138,42,10,57,359,43*70";
    let cmds = decode_gsv(data, BASE);
    assert_eq!(cmds.len(), 5);
    assert_eq!(cmds[0].topic.as_str(), "/GOLF86/GPS/SAT/GLOBAL/NUM");
    assert_eq!(text_payload(&cmds[0]), "11");
    assert_eq!(cmds[1].topic.as_str(), "/GOLF86/GPS/SAT/VEHICLES/7");
    assert_eq!(
        text_payload(&cmds[1]),
        "PRN: 7, Type: GPS, Elevation: 79, Azimuth: 45, SNR: 42, In View: true"
    );
}

#[test]
fn test_parse_and_display_gga() {
    let data = "GNGGA,123519,4807.038,N,01131.000,E,1,08,0.9,545.4,M,46.9,M,,*47";
    let cmds = decode_gga(data, BASE);
    assert_eq!(cmds.len(), 2);
    assert_eq!(cmds[0].topic.as_str(), "/GOLF86/GPS/ALT");
    assert_eq!(text_payload(&cmds[0]), "545.4");
    assert_eq!(cmds[1].topic.as_str(), "/GOLF86/GPS/QTY");
    assert_eq!(text_payload(&cmds[1]), "1");
}

#[test]
fn test_parse_and_display_rmc() {
    let data = "GNRMC,123519,A,4807.038,N,01131.000,E,022.4,084.4,230394,003.1,W*6A";
    let cmds = decode_rmc(data, BASE);
    assert_eq!(cmds.len(), 5);
    assert_eq!(cmds[0].topic.as_str(), "/GOLF86/GPS/TME");
    assert_eq!(text_payload(&cmds[0]), "12:35:19");
    assert_eq!(cmds[1].topic.as_str(), "/GOLF86/GPS/DTE");
    assert_eq!(text_payload(&cmds[1]), "23.03.2094");
    assert_eq!(cmds[2].topic.as_str(), "/GOLF86/GPS/LAT");
    assert!(matches!(cmds[2].payload, PayloadValue::Coord(_)));
    assert_eq!(cmds[3].topic.as_str(), "/GOLF86/GPS/LNG");
    assert!(matches!(cmds[3].payload, PayloadValue::Coord(_)));
    assert_eq!(cmds[4].topic.as_str(), "/GOLF86/GPS/SPD");
    assert_eq!(text_payload(&cmds[4]), "22.4");
}

#[test]
fn test_parse_and_display_vtg() {
    let data = "GNVTG,054.7,T,034.4,M,005.5,N,010.2,K*48";
    let cmds = decode_vtg(data, BASE);
    assert_eq!(cmds.len(), 3);
    assert_eq!(cmds[0].topic.as_str(), "/GOLF86/GPS/CRS");
    assert_eq!(text_payload(&cmds[0]), "54.7");
    assert_eq!(cmds[1].topic.as_str(), "/GOLF86/GPS/SPD_KTS");
    assert_eq!(text_payload(&cmds[1]), "5.5");
    assert_eq!(cmds[2].topic.as_str(), "/GOLF86/GPS/SPD_KPH");
    assert_eq!(text_payload(&cmds[2]), "10.2");
}

#[test]
fn test_parse_and_display_gsa() {
    let data = "GNGSA,A,3,04,05,,09,12,,24,,,,,1.8,1.0,1.5*33";
    let cmds = decode_gsa(data, BASE);
    assert_eq!(cmds.len(), 1);
    assert_eq!(cmds[0].topic.as_str(), "/GOLF86/GPS/SAT/VEHICLES/4/FIX_TYPE");
    assert_eq!(text_payload(&cmds[0]), "3D");
}

#[test]
fn test_parse_and_display_gntxt() {
    let data = "GNTXT,01,01,02,u-blox ag - www.u-blox.com*4E";
    let cmds = decode_txt(data, BASE);
    assert!(cmds.is_empty());
}

#[test]
fn test_parse_and_display_gll() {
    let data = "GNGLL,4916.45,N,12311.12,W,225444,A";
    let cmds = decode_gll(data, BASE);
    assert_eq!(cmds.len(), 3);
    assert_eq!(cmds[0].topic.as_str(), "/GOLF86/GPS/GLL_TME");
    assert_eq!(text_payload(&cmds[0]), "22:54:44");
    assert_eq!(cmds[1].topic.as_str(), "/GOLF86/GPS/GLL_LAT");
    assert!(matches!(cmds[1].payload, PayloadValue::Coord(_)));
    assert_eq!(cmds[2].topic.as_str(), "/GOLF86/GPS/GLL_LNG");
    assert!(matches!(cmds[2].payload, PayloadValue::Coord(_)));
}

#[test]
fn test_nmea_sentence_from_str() {
    assert!(matches!(NmeaSentence::from_str("GPGSV"), NmeaSentence::GSV));
    assert!(matches!(NmeaSentence::from_str("GNGGA"), NmeaSentence::GGA));
    assert!(matches!(NmeaSentence::from_str("GNRMC"), NmeaSentence::RMC));
    assert!(matches!(NmeaSentence::from_str("GNVTG"), NmeaSentence::VTG));
    assert!(matches!(NmeaSentence::from_str("GNGSA"), NmeaSentence::GSA));
    assert!(matches!(NmeaSentence::from_str("GNGLL"), NmeaSentence::GLL));
    assert!(matches!(NmeaSentence::from_str("GNTXT"), NmeaSentence::TXT));
    assert!(matches!(NmeaSentence::from_str("INVALID"), NmeaSentence::Unknown));
}

#[test]
fn test_satellite_type_as_str() {
    assert_eq!(SatelliteType::GPS.as_str(), "GPS");
    assert_eq!(SatelliteType::GLONASS.as_str(), "GLONASS");
    assert_eq!(SatelliteType::Galileo.as_str(), "Galileo");
    assert_eq!(SatelliteType::BeiDou.as_str(), "BeiDou");
    assert_eq!(SatelliteType::Unknown.as_str(), "Unknown");
}

#[test]
fn test_process_gps_data_invalid_input() {
    // Data not starting with $
    assert!(process_gps_data("Invalid data", BASE).is_empty());

    // Data without a checksum separator
    assert!(process_gps_data("$GPGGA,Invalid", BASE).is_empty());

    // Empty data
    assert!(process_gps_data("", BASE).is_empty());
}

#[test]
fn test_gsa_parsing_invalid_input() {
    // Empty fields: every numeric field reads as zero.
    let data = "GNGSA,,,,,,,,,,,,,,,,,";
    let cmds = decode_gsa(data, BASE);
    assert_eq!(cmds.len(), 1);
    assert_eq!(cmds[0].topic.as_str(), "/GOLF86/GPS/SAT/VEHICLES/0/FIX_TYPE");
    assert_eq!(text_payload(&cmds[0]), "Unknown");

    // A fix type outside the known codes reads as unknown.
    let data = "GNGSA,A,9,04,05,,09,12,,24,,,,,1.8,1.0,1.5*33";
    let cmds = decode_gsa(data, BASE);
    assert_eq!(cmds.len(), 1);
    assert_eq!(text_payload(&cmds[0]), "Unknown");
}

#[test]
fn test_gll_parsing_invalid_input() {
    // Too few fields: nothing decodes.
    let data = "GNGLL,4916.45,N,12311.12";
    assert!(decode_gll(data, BASE).is_empty());

    // Unparsable coordinates decode to zero, the sentence still routes.
    let data = "GNGLL,invalid,N,invalid,W,225444,A";
    let cmds = decode_gll(data, BASE);
    assert_eq!(cmds.len(), 3);
}

#[test]
fn test_txt_key_markers_and_nuisance_filter() {
    // The fourth logical field is "02,ANTSTATUS=OK"; the embedded leading
    // index "02" is dropped before the marker check.
    let cmds = decode_txt("GNTXT,01,01,02,ANTSTATUS=OK", BASE);
    assert_eq!(cmds.len(), 1);
    assert_eq!(cmds[0].topic.as_str(), "/GOLF86/GPS/SAT/GLOBAL/ANTSTATUS");
    assert_eq!(text_payload(&cmds[0]), "OK");

    let cmds = decode_txt("GNTXT,01,01,00,PF=3FF", BASE);
    assert_eq!(cmds.len(), 1);
    assert_eq!(cmds[0].topic.as_str(), "/GOLF86/GPS/SAT/GLOBAL/PF");
    assert_eq!(text_payload(&cmds[0]), "3FF");

    let cmds = decode_txt("GNTXT,01,01,00,GNSS OTP=GPS;GLO", BASE);
    assert_eq!(cmds.len(), 1);
    assert_eq!(cmds[0].topic.as_str(), "/GOLF86/GPS/SAT/GLOBAL/GNSS_OTP");
    assert_eq!(text_payload(&cmds[0]), "GPS;GLO");

    // The nuisance buffer report is silently discarded.
    assert!(decode_txt("GNTXT,01,01,02,txbuf alloc failure", BASE).is_empty());

    // A fourth field without an embedded index is taken whole.
    let cmds = decode_txt("GNTXT,01,01,ANTSTATUS=INIT", BASE);
    assert_eq!(cmds.len(), 1);
    assert_eq!(text_payload(&cmds[0]), "INIT");

    // A marker counts wherever it occurs in the message, and the payload is
    // the text after its equals sign.
    let cmds = decode_txt("GNTXT,01,01,00,xPF=1", BASE);
    assert_eq!(cmds.len(), 1);
    assert_eq!(cmds[0].topic.as_str(), "/GOLF86/GPS/SAT/GLOBAL/PF");
    assert_eq!(text_payload(&cmds[0]), "1");

    let cmds = decode_txt("GNTXT,01,01,00,antenna ANTSTATUS=OK today", BASE);
    assert_eq!(cmds.len(), 1);
    assert_eq!(cmds[0].topic.as_str(), "/GOLF86/GPS/SAT/GLOBAL/ANTSTATUS");
    assert_eq!(text_payload(&cmds[0]), "OK today");

    // Too few logical fields: nothing decodes.
    assert!(decode_txt("GNTXT,01,01", BASE).is_empty());
}

#[test]
fn test_process_routes_by_identifier() {
    let cmds = process_gps_data("$GNVTG,054.7,T,034.4,M,005.5,N,010.2,K*48", BASE);
    assert_eq!(cmds.len(), 3);
    assert_eq!(cmds[0].topic.as_str(), "/GOLF86/GPS/CRS");

    // An unknown identifier is unrouted, not an error.
    assert!(process_gps_data("$GNZZZ,1,2,3*11", BASE).is_empty());
}

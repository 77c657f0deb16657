use pf4voice::guidance::Guidance;
use pf4voice::pathfinder4::{MessageKind, ParseError};
use pf4voice::request::{decode_message, RequestError};
use pf4voice::scenarios::{build_scenarios, find_scenario, scenario_names, Scenario, VoicevoxScenario};
use pf4voice::text::text_less;
use pf4voice::voices::{Speaker, SpeakerStyle, SupportedFeatures, Voice};

#[test]
fn request_data_is_base64_of_a_message() {
    // The arrival message: a `pf_destinationstep_act` command without arguments.
    let g = decode_message("EisSAConGiUKC3BhdGhmaW5kZXI0EhZwZl9kZXN0aW5hdGlvbnN0ZXBfYWN0").unwrap();
    assert_eq!(g, Guidance::DestinationStepAct);
}

#[test]
fn request_data_that_is_not_base64_is_refused() {
    assert!(matches!(decode_message("not base64!"), Err(RequestError::BadBase64)));
    assert!(matches!(decode_message("QQ"), Err(RequestError::BadBase64)));
}

#[test]
fn request_data_that_is_not_a_message_is_refused() {
    // "" decodes to no bytes: a message without its body.
    match decode_message("") {
        Err(RequestError::BadMessage(ParseError::MissingField(MessageKind::Envelope))) => {}
        other => panic!("unexpected {:?}", other),
    }
    // 0x08 is a varint tag whose value is missing.
    assert!(matches!(decode_message("CA=="), Err(RequestError::BadMessage(ParseError::Wire(_)))));
}

fn speaker(name: &str, styles: &[(&str, u32)]) -> Speaker {
    Speaker {
        name: name.to_string(),
        speaker_uuid: "u".to_string(),
        styles: styles
            .iter()
            .map(|(n, id)| SpeakerStyle { name: n.to_string(), id: *id, style_type: "talk".to_string() })
            .collect(),
        version: "1".to_string(),
        supported_features: SupportedFeatures { permitted_synthesis_morphing: "ALL".to_string() },
    }
}

fn style_id(s: &VoicevoxScenario) -> u32 {
    match &*s.voice {
        Voice::VOICEVOX(_, st) => st.id,
        Voice::Static(_) => panic!("expected an engine voice"),
    }
}

#[test]
fn scenarios_are_found_by_name() {
    let scenarios = build_scenarios(&[speaker("A", &[("N", 1), ("S", 2)])]);
    assert_eq!(find_scenario(&scenarios, "VOICEVOX A (N)"), Some(0));
    assert_eq!(find_scenario(&scenarios, "VOICEVOX A (N)/P"), Some(1));
    assert_eq!(find_scenario(&scenarios, "VOICEVOX A (S)/P"), Some(3));
    assert_eq!(find_scenario(&scenarios, "VOICEVOX B (N)"), None);
    assert_eq!(scenarios[find_scenario(&scenarios, "VOICEVOX A (S)").unwrap()].name(), "VOICEVOX A (S)");
}

#[test]
fn the_last_scenario_of_a_name_wins() {
    let scenarios = build_scenarios(&[speaker("A", &[("N", 1)]), speaker("A", &[("N", 7)])]);
    assert_eq!(scenarios.len(), 4);
    let i = find_scenario(&scenarios, "VOICEVOX A (N)").unwrap();
    assert_eq!(i, 2);
    assert_eq!(style_id(&scenarios[i]), 7);
    let j = find_scenario(&scenarios, "VOICEVOX A (N)/P").unwrap();
    assert_eq!(j, 3);
    assert!(scenarios[j].use_parser);
}

#[test]
fn scenario_names_are_sorted_once_each() {
    let scenarios = build_scenarios(&[
        speaker("B", &[("N", 1)]),
        speaker("A", &[("Z", 2), ("N", 3)]),
        speaker("B", &[("N", 4)]),
    ]);
    let names = scenario_names(&scenarios);
    let mut expected: Vec<String> = scenarios.iter().map(|s| s.name()).collect();
    expected.sort();
    expected.dedup();
    assert_eq!(names, expected);
    assert_eq!(
        names,
        vec![
            "VOICEVOX A (N)",
            "VOICEVOX A (N)/P",
            "VOICEVOX A (Z)",
            "VOICEVOX A (Z)/P",
            "VOICEVOX B (N)",
            "VOICEVOX B (N)/P",
        ]
    );
    assert!(scenario_names(&[]).is_empty());
}

#[test]
fn text_order_is_that_of_str() {
    let words = ["", "a", "ab", "b", "Z", "ず", "ずんだ", "春", "~", "aa"];
    for x in words {
        for y in words {
            assert_eq!(text_less(x, y), x < y, "{:?} {:?}", x, y);
        }
    }
}

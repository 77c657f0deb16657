use base64::prelude::{Engine as _, BASE64_STANDARD};
use pf4voice::guidance::{
    DestinationSide, Distance, DistanceUnit, ExitName, Guidance, Intersection, KeepSide,
    LaneGuidance, SignName, StopSign, TrafficLight, Turn, TurnSharpness, TurnSide,
};
use pf4voice::pathfinder4::{dump_proto, parse, Command, KeyName, MessageKind, ParseError};
use pf4voice::render::{fill_numbers, TextPiece};
use pf4voice::wire::WireValue;

const TEST_CASES: &[&str] = &[
    // およそ 500 メートル先、、右側 2 車線を使用して右折する
    "EpQCEuYBChMKCGRpc3RhbmNlMQAAAAAAQH9ACjcKDWRpc3RhbmNlX3VuaXRaJgoXbmxwX2dlbmVyYXRpb24uVW5pdFR5cGUSC1VOSVRfTUVURVJTCpUBCghtYW5ldXZlcoIBhwEKIwoDa2V5chwaGgoLcGF0aGZpbmRlcjQSC3BmX3R1cm5zdGVwCmAKBGFyZ3OCAVcKJwoSbGFuZV9ndWlkYW5jZV90eXBlIhFVU0VfUklHSFRfMl9MQU5FUwoYCg50dXJuX3NoYXJwbmVzcyIGTk9STUFMChIKCXR1cm5fc2lkZSIFUklHSFQqKRonCgtwYXRoZmluZGVyNBIYcHJlcGFyZV9kaXN0YW5jZV9tZXNzYWdl",
    // およそ 400 メートル先、、右折する
    "EukBErsBChMKCGRpc3RhbmNlMQAAAAAAAHlACjcKDWRpc3RhbmNlX3VuaXRaJgoXbmxwX2dlbmVyYXRpb24uVW5pdFR5cGUSC1VOSVRfTUVURVJTCmsKCG1hbmV1dmVyggFeCiMKA2tleXIcGhoKC3BhdGhmaW5kZXI0EgtwZl90dXJuc3RlcAo3CgRhcmdzggEuChgKDnR1cm5fc2hhcnBuZXNzIgZOT1JNQUwKEgoJdHVybl9zaWRlIgVSSUdIVCopGicKC3BhdGhmaW5kZXI0EhhwcmVwYXJlX2Rpc3RhbmNlX21lc3NhZ2U=",
    // およそ 400 メートル先、、京葉市川インターチェンジ 出口を 国道14号 方面に向かって進みます
    "EqYCEvgBChMKCGRpc3RhbmNlMQAAAAAAAHlACjcKDWRpc3RhbmNlX3VuaXRaJgoXbmxwX2dlbmVyYXRpb24uVW5pdFR5cGUSC1VOSVRfTUVURVJTCqcBCghtYW5ldXZlcoIBmQEKJgoDa2V5ch8aHQoLcGF0aGZpbmRlcjQSDnBmX29mZnJhbXBzdGVwCm8KBGFyZ3OCAWYKZAoJZXhpdF9uYW1lggFWClQKBWV4aXRzggFKCkh6RgoeL0ZFQVRVUkVfSUQvMHhmMmQ1ZDAxYjg0YTJjMzUyEiTkuqzokYnluILlt53jgqTjg7Pjgr/jg7zjg4Hjgqfjg7PjgrgqKRonCgtwYXRoZmluZGVyNBIYcHJlcGFyZV9kaXN0YW5jZV9tZXNzYWdl",
    // 京葉市川インターチェンジ を出ます、続いて 斜め左方向に曲がり 市川 方面のランプにはいります
    "EqYDEvICCqkBCgpmaXJzdF9zdGVwggGZAQomCgNrZXlyHxodCgtwYXRoZmluZGVyNBIOcGZfb2ZmcmFtcHN0ZXAKbwoEYXJnc4IBZgpkCglleGl0X25hbWWCAVYKVAoFZXhpdHOCAUoKSHpGCh4vRkVBVFVSRV9JRC8weGYyZDVkMDFiODRhMmMzNTISJOS6rOiRieW4guW3neOCpOODs+OCv+ODvOODgeOCp+ODs+OCuArDAQoLc2Vjb25kX3N0ZXCCAbIBCiUKA2tleXIeGhwKC3BhdGhmaW5kZXI0Eg1wZl9vbnJhbXBzdGVwCogBCgRhcmdzggF/ChgKDnR1cm5fc2hhcnBuZXNzIgZTTElHSFQKEQoJdHVybl9zaWRlIgRMRUZUClAKEnNpZ25faW5kaXJlY3RfbmFtZYIBOQo3CgZyb3V0ZXOCASwKKnooCh4vRkVBVFVSRV9JRC8weGZmMjBlOTlhZjkxYWM1MzkSBuW4guW3nSovGi0KC3BhdGhmaW5kZXI0Eh5jb21iaW5lX21lcmdlZF9ndWlkYW5jZV9ldmVudHM=",
    // 斜め左方向に曲がり 市川 方面のランプにはいります、続いて 左折する
    "EugCErQCCsIBCgpmaXJzdF9zdGVwggGyAQolCgNrZXlyHhocCgtwYXRoZmluZGVyNBINcGZfb25yYW1wc3RlcAqIAQoEYXJnc4IBfwoYCg50dXJuX3NoYXJwbmVzcyIGU0xJR0hUChEKCXR1cm5fc2lkZSIETEVGVApQChJzaWduX2luZGlyZWN0X25hbWWCATkKNwoGcm91dGVzggEsCip6KAoeL0ZFQVRVUkVfSUQvMHhmZjIwZTk5YWY5MWFjNTM5EgbluILlt50KbQoLc2Vjb25kX3N0ZXCCAV0KIwoDa2V5chwaGgoLcGF0aGZpbmRlcjQSC3BmX3R1cm5zdGVwCjYKBGFyZ3OCAS0KGAoOdHVybl9zaGFycG5lc3MiBk5PUk1BTAoRCgl0dXJuX3NpZGUiBExFRlQqLxotCgtwYXRoZmluZGVyNBIeY29tYmluZV9tZXJnZWRfZ3VpZGFuY2VfZXZlbnRz",
    // 信号を左方向です
    "EmASQAoRCg10cmFmZmljX2xpZ2h0GAEKGAoOdHVybl9zaGFycG5lc3MiBk5PUk1BTAoRCgl0dXJuX3NpZGUiBExFRlQqHBoaCgtwYXRoZmluZGVyNBILcGZfdHVybnN0ZXA=",
    // そのまま 1 キロ進みます
    "EnwSUgoTCghkaXN0YW5jZTEAAAAAAADwPwo7Cg1kaXN0YW5jZV91bml0WioKF25scF9nZW5lcmF0aW9uLlVuaXRUeXBlEg9VTklUX0tJTE9NRVRFUlMqJhokCgtwYXRoZmluZGVyNBIVY29udGludWVfZm9yX2Rpc3RhbmNl",
    // およそ 300 メートル先、、右方向です
    "EukBErsBChMKCGRpc3RhbmNlMQAAAAAAwHJACjcKDWRpc3RhbmNlX3VuaXRaJgoXbmxwX2dlbmVyYXRpb24uVW5pdFR5cGUSC1VOSVRfTUVURVJTCmsKCG1hbmV1dmVyggFeCiMKA2tleXIcGhoKC3BhdGhmaW5kZXI0EgtwZl90dXJuc3RlcAo3CgRhcmdzggEuChgKDnR1cm5fc2hhcnBuZXNzIgZOT1JNQUwKEgoJdHVybl9zaWRlIgVSSUdIVCopGicKC3BhdGhmaW5kZXI0EhhwcmVwYXJlX2Rpc3RhbmNlX21lc3NhZ2U=",
    // 右方向です
    "Ek4SLgoYCg50dXJuX3NoYXJwbmVzcyIGTk9STUFMChIKCXR1cm5fc2lkZSIFUklHSFQqHBoaCgtwYXRoZmluZGVyNBILcGZfdHVybnN0ZXA=",
    // およそ 200 メートル先、、目的地です。
    "EsoBEpwBChMKCGRpc3RhbmNlMQAAAAAAAGlACjcKDWRpc3RhbmNlX3VuaXRaJgoXbmxwX2dlbmVyYXRpb24uVW5pdFR5cGUSC1VOSVRfTUVURVJTCkwKCG1hbmV1dmVyggE/CjIKA2tleXIrGikKC3BhdGhmaW5kZXI0EhpwZl9kZXN0aW5hdGlvbnN0ZXBfcHJlcGFyZQoJCgRhcmdzggEAKikaJwoLcGF0aGZpbmRlcjQSGHByZXBhcmVfZGlzdGFuY2VfbWVzc2FnZQ==",
    // 目的地に到着しました。
    "EisSAConGiUKC3BhdGhmaW5kZXI0EhZwZl9kZXN0aW5hdGlvbnN0ZXBfYWN0",
];

fn parse_and_warn(s64: &str) {
    let s = BASE64_STANDARD.decode(s64).expect("failed to decode base64");
    let dump = dump_proto(&s, 0).unwrap_or_else(|e| format!("failed to dump proto: {:?}", e));
    let result = parse(&s);
    assert!(result.is_ok(), "parse failed for {}: {:?}\nDump:\n{}", s64, result, dump);
}

#[test]
fn test_parser() {
    for s in TEST_CASES {
        parse_and_warn(s);
    }
}

fn put_varint(mut v: u64, out: &mut Vec<u8>) {
    loop {
        let b = (v & 0x7f) as u8;
        v >>= 7;
        if v == 0 {
            out.push(b);
            return;
        }
        out.push(b | 0x80);
    }
}

fn len_field(n: u32, payload: &[u8]) -> Vec<u8> {
    let mut out = Vec::new();
    put_varint(((n as u64) << 3) | 2, &mut out);
    put_varint(payload.len() as u64, &mut out);
    out.extend_from_slice(payload);
    out
}

fn varint_field(n: u32, v: u64) -> Vec<u8> {
    let mut out = Vec::new();
    put_varint((n as u64) << 3, &mut out);
    put_varint(v, &mut out);
    out
}

fn double_field(n: u32, v: f64) -> Vec<u8> {
    let mut out = Vec::new();
    put_varint(((n as u64) << 3) | 1, &mut out);
    out.extend_from_slice(&v.to_le_bytes());
    out
}

fn cat(parts: &[Vec<u8>]) -> Vec<u8> {
    parts.concat()
}

fn pf4_enum(t: &str, v: &str) -> Vec<u8> {
    cat(&[len_field(1, t.as_bytes()), len_field(2, v.as_bytes())])
}

fn symbol_pair(key: &str, sym: &str) -> Vec<u8> {
    cat(&[len_field(1, key.as_bytes()), len_field(4, sym.as_bytes())])
}

fn command_pair(t: &str, v: &str) -> Vec<u8> {
    cat(&[len_field(1, b"key"), len_field(14, &len_field(3, &pf4_enum(t, v)))])
}

fn array_pair(key: &str, items: &[Vec<u8>]) -> Vec<u8> {
    let inner: Vec<Vec<u8>> = items.iter().map(|i| len_field(1, i)).collect();
    cat(&[len_field(1, key.as_bytes()), len_field(16, &cat(&inner))])
}

fn text_item(text: &str) -> Vec<u8> {
    len_field(15, &len_field(2, text.as_bytes()))
}

fn message(args: &[Vec<u8>], command: &str) -> Vec<u8> {
    let inner: Vec<Vec<u8>> = args.iter().map(|a| len_field(1, a)).collect();
    let body = cat(&[
        len_field(2, &cat(&inner)),
        len_field(5, &len_field(3, &pf4_enum("pathfinder4", command))),
    ]);
    len_field(2, &body)
}

fn decode(s64: &str) -> Vec<u8> {
    BASE64_STANDARD.decode(s64).expect("failed to decode base64")
}

fn no_intersection() -> Intersection {
    Intersection { name: None, traffic_light: None, stop_sign: None }
}

fn no_sign() -> SignName {
    SignName { direct: None, indirect: None }
}

fn meters(v: f64) -> Distance {
    Distance { value_bytes: v.to_le_bytes(), unit: DistanceUnit::Meter, distance_override: None }
}

fn exit_kyoyo() -> Guidance {
    Guidance::OffRampStep(
        None,
        Some(ExitName { name: "京葉市川インターチェンジ".to_string() }),
        no_sign(),
    )
}

fn onramp_ichikawa() -> Guidance {
    Guidance::OnRampStep(
        Some(Turn { sharpness: TurnSharpness::Slight, side: TurnSide::Left }),
        None,
        no_intersection(),
        SignName { direct: None, indirect: Some("市川".to_string()) },
    )
}

#[test]
fn sample_messages_parse_to_expected_guidance() {
    let expected = vec![
        Guidance::PrepareDistanceMessage(
            meters(500.0),
            Box::new(Guidance::TurnStep(
                Turn { sharpness: TurnSharpness::Normal, side: TurnSide::Right },
                Some(LaneGuidance::Right2Lanes),
                no_intersection(),
            )),
        ),
        Guidance::PrepareDistanceMessage(
            meters(400.0),
            Box::new(Guidance::TurnStep(
                Turn { sharpness: TurnSharpness::Normal, side: TurnSide::Right },
                None,
                no_intersection(),
            )),
        ),
        Guidance::PrepareDistanceMessage(meters(400.0), Box::new(exit_kyoyo())),
        Guidance::CombineMergedGuidanceEvents(Box::new(exit_kyoyo()), Box::new(onramp_ichikawa())),
        Guidance::CombineMergedGuidanceEvents(
            Box::new(onramp_ichikawa()),
            Box::new(Guidance::TurnStep(
                Turn { sharpness: TurnSharpness::Normal, side: TurnSide::Left },
                None,
                no_intersection(),
            )),
        ),
        Guidance::TurnStep(
            Turn { sharpness: TurnSharpness::Normal, side: TurnSide::Left },
            None,
            Intersection { name: None, traffic_light: Some(TrafficLight { index: -1 }), stop_sign: None },
        ),
        Guidance::ContinueForDistance(Distance {
            value_bytes: 1.0f64.to_le_bytes(),
            unit: DistanceUnit::Kilometer,
            distance_override: None,
        }),
        Guidance::PrepareDistanceMessage(
            meters(300.0),
            Box::new(Guidance::TurnStep(
                Turn { sharpness: TurnSharpness::Normal, side: TurnSide::Right },
                None,
                no_intersection(),
            )),
        ),
        Guidance::TurnStep(
            Turn { sharpness: TurnSharpness::Normal, side: TurnSide::Right },
            None,
            no_intersection(),
        ),
        Guidance::PrepareDistanceMessage(meters(200.0), Box::new(Guidance::DestinationStepPrepare(None))),
        Guidance::DestinationStepAct,
    ];
    assert_eq!(expected.len(), TEST_CASES.len());
    for (s64, want) in TEST_CASES.iter().zip(expected.iter()) {
        let got = parse(&decode(s64)).expect("sample must parse");
        assert_eq!(&got, want, "for {}", s64);
    }
}

#[test]
fn every_command_maps_its_arguments() {
    let cases: Vec<(Vec<u8>, Guidance)> = vec![
        (
            message(&[symbol_pair("lane_guidance_type", "USE_ANY_LANE")], "pf_straightstep"),
            Guidance::StraightStep(Some(LaneGuidance::AnyLane)),
        ),
        (message(&[], "pf_mergestep"), Guidance::MergeStep(None)),
        (
            message(&[array_pair("intersection_name", &[array_pair("routes", &[text_item("桜木町")])])], "pf_uturnstep"),
            Guidance::UTurnStep(Intersection { name: Some("桜木町".to_string()), traffic_light: None, stop_sign: None }),
        ),
        (
            message(&[symbol_pair("keep_side", "RIGHT"), symbol_pair("lane_guidance_type", "USE_LEFT_LANE")], "pf_keeporforkstep"),
            Guidance::KeepOrForkStep(KeepSide::Right, Some(LaneGuidance::LeftLane)),
        ),
        (
            message(&[symbol_pair("destination_side", "LEFT")], "pf_destinationstep_prepare"),
            Guidance::DestinationStepPrepare(Some(DestinationSide::Left)),
        ),
        (
            message(
                &[
                    array_pair("interchange_name", &[array_pair("exits", &[text_item("湾岸"), text_item("市川")])]),
                    array_pair("sign_direct_name", &[array_pair("routes", &[text_item("東京")])]),
                ],
                "pf_interchangestep",
            ),
            Guidance::InterchangeStep(
                None,
                pf4voice::guidance::InterchangeName { name: "湾岸・市川".to_string() },
                SignName { direct: Some("東京".to_string()), indirect: None },
            ),
        ),
        (
            message(
                &[
                    symbol_pair("turn_sharpness", "SHARP"),
                    symbol_pair("turn_side", "LEFT"),
                    cat(&[len_field(1, b"stop_sign"), varint_field(3, 2)]),
                ],
                "pf_turnstep",
            ),
            Guidance::TurnStep(
                Turn { sharpness: TurnSharpness::Sharp, side: TurnSide::Left },
                None,
                Intersection { name: None, traffic_light: None, stop_sign: Some(StopSign { index: 1 }) },
            ),
        ),
        (
            message(
                &[
                    cat(&[len_field(1, b"distance"), double_field(6, 2.5)]),
                    cat(&[
                        len_field(1, b"distance_unit"),
                        len_field(11, &pf4_enum("nlp_generation.UnitType", "UNIT_MILES")),
                    ]),
                    symbol_pair("distance_override_type", "ROUNDED"),
                ],
                "continue_for_distance",
            ),
            Guidance::ContinueForDistance(Distance {
                value_bytes: 2.5f64.to_le_bytes(),
                unit: DistanceUnit::Mile,
                distance_override: Some("ROUNDED".to_string()),
            }),
        ),
    ];
    for (bytes, want) in cases {
        assert_eq!(parse(&bytes).expect("must parse"), want);
    }
}

fn parse_err(bytes: &[u8]) -> ParseError {
    parse(bytes).expect_err("must be refused")
}

#[test]
fn arguments_of_different_kinds_commute() {
    let a = message(&[symbol_pair("turn_sharpness", "SLIGHT"), symbol_pair("turn_side", "RIGHT")], "pf_turnstep");
    let b = message(&[symbol_pair("turn_side", "RIGHT"), symbol_pair("turn_sharpness", "SLIGHT")], "pf_turnstep");
    assert_eq!(parse(&a).unwrap(), parse(&b).unwrap());
    assert_eq!(
        parse(&a).unwrap(),
        Guidance::TurnStep(Turn { sharpness: TurnSharpness::Slight, side: TurnSide::Right }, None, no_intersection())
    );
}

#[test]
fn later_argument_of_a_kind_overrides() {
    let bytes = message(
        &[
            symbol_pair("turn_side", "LEFT"),
            symbol_pair("turn_sharpness", "NORMAL"),
            symbol_pair("turn_side", "RIGHT"),
        ],
        "pf_turnstep",
    );
    assert_eq!(
        parse(&bytes).unwrap(),
        Guidance::TurnStep(Turn { sharpness: TurnSharpness::Normal, side: TurnSide::Right }, None, no_intersection())
    );
}

#[test]
fn envelope_errors() {
    assert!(matches!(parse_err(&[]), ParseError::MissingField(MessageKind::Envelope)));
    assert!(matches!(parse_err(&varint_field(1, 7)), ParseError::UnexpectedField(MessageKind::Envelope, 1)));
    let one = message(&[], "pf_mergestep");
    let two = cat(&[one.clone(), one]);
    assert!(matches!(parse_err(&two), ParseError::UnexpectedField(MessageKind::Envelope, 2)));
    match parse_err(&[0x12, 0x05, 0x01]) {
        ParseError::Wire(text) => assert_eq!(text, "Unexpected EOF while parsing field"),
        other => panic!("unexpected {:?}", other),
    }
}

#[test]
fn message_errors() {
    let only_args = len_field(2, &len_field(2, &[]));
    assert!(matches!(parse_err(&only_args), ParseError::MissingField(MessageKind::PF4Message)));
    let stray = len_field(2, &varint_field(7, 1));
    assert!(matches!(parse_err(&stray), ParseError::UnexpectedField(MessageKind::PF4Message, 7)));
    let bad_values = len_field(2, &len_field(2, &varint_field(2, 1)));
    assert!(matches!(parse_err(&bad_values), ParseError::UnexpectedField(MessageKind::PF4MessageFields, 2)));
    let no_enum = len_field(2, &cat(&[len_field(2, &[]), len_field(5, &[])]));
    assert!(matches!(parse_err(&no_enum), ParseError::MissingField(MessageKind::PF4Command)));
    let half_enum = len_field(2, &cat(&[len_field(2, &[]), len_field(5, &len_field(3, &len_field(1, b"x")))]));
    assert!(matches!(parse_err(&half_enum), ParseError::MissingField(MessageKind::PF4Enum)));
}

/// The report of `e`, its numbers written as std's `{:?}` writes an `f64`.
fn report(e: &ParseError) -> String {
    let pieces = e.message_pieces();
    let numbers: Vec<String> = pieces
        .iter()
        .filter_map(|p| match p {
            TextPiece::Number(b) => Some(format!("{:?}", f64::from_le_bytes(*b))),
            TextPiece::Text(_) => None,
        })
        .collect();
    fill_numbers(&pieces, &numbers).unwrap()
}

fn distance_pair(v: f64) -> Vec<u8> {
    cat(&[len_field(1, b"distance"), double_field(6, v)])
}

fn int_pair(key: &str, v: u64) -> Vec<u8> {
    cat(&[len_field(1, key.as_bytes()), varint_field(3, v)])
}

fn unit_pair(t: &str, v: &str) -> Vec<u8> {
    cat(&[len_field(1, b"distance_unit"), len_field(11, &pf4_enum(t, v))])
}

fn step_pair(key: &str, command: &str, args: &[Vec<u8>]) -> Vec<u8> {
    array_pair(key, &[command_pair("pathfinder4", command), array_pair("args", args)])
}

#[test]
fn command_errors() {
    let wrong_type = len_field(
        2,
        &cat(&[len_field(2, &[]), len_field(5, &len_field(3, &pf4_enum("other", "pf_mergestep")))]),
    );
    match parse_err(&wrong_type) {
        ParseError::UnknownCommandType(t) => assert_eq!(t, "other"),
        other => panic!("unexpected {:?}", other),
    }
    match parse_err(&message(&[], "pf_fly")) {
        ParseError::UnknownCommandValue(v) => assert_eq!(v, "pf_fly"),
        other => panic!("unexpected {:?}", other),
    }
    let e = parse_err(&message(&[symbol_pair("turn_side", "LEFT")], "pf_straightstep"));
    assert!(matches!(e, ParseError::UnknownArgs(Command::StraightStep, _)));
    assert_eq!(report(&e), "unknown args for pf_straightstep TurnSide(Left)");
    let e = parse_err(&message(&[symbol_pair("keep_side", "LEFT")], "pf_destinationstep_act"));
    assert!(matches!(e, ParseError::UnexpectedArgs(_)));
    assert_eq!(report(&e), "unknown args for pf_destinationstep_act [KeepSide(Left)]");
    let e = parse_err(&message(&[symbol_pair("turn_side", "LEFT")], "pf_turnstep"));
    assert!(matches!(e, ParseError::MissingArgs(Command::TurnStep)));
    let e = parse_err(&message(&[], "pf_keeporforkstep"));
    assert!(matches!(e, ParseError::MissingArgs(Command::KeepOrForkStep)));
    let e = parse_err(&message(&[symbol_pair("turn_sharpness", "SLIGHT")], "pf_onrampstep"));
    assert!(matches!(e, ParseError::MismatchedTurn));
}

#[test]
fn refused_arguments_are_shown() {
    // The first argument that the command does not take is the one reported.
    let e = parse_err(&message(
        &[symbol_pair("lane_guidance_type", "USE_LEFT_LANE"), distance_pair(500.0), symbol_pair("turn_side", "LEFT")],
        "pf_mergestep",
    ));
    assert_eq!(report(&e), "unknown args for pf_mergestep Distance(500.0)");
    let e = parse_err(&message(&[int_pair("stop_sign", 3)], "pf_onrampstep"));
    assert_eq!(report(&e), "unknown args for pf_onrampstep StopSign(StopSign { index: -2 })");
    let e = parse_err(&message(&[step_pair("maneuver", "pf_mergestep", &[])], "pf_turnstep"));
    assert_eq!(report(&e), "unknown args for pf_turnstep Maneuver(MergeStep(None))");
    let e = parse_err(&message(
        &[step_pair("first_step", "continue_for_distance", &[distance_pair(1.5), unit_pair("nlp_generation.UnitType", "UNIT_KILOMETERS")])],
        "pf_mergestep",
    ));
    assert_eq!(
        report(&e),
        "unknown args for pf_mergestep FirstStep(ContinueForDistance(Distance { value: 1.5, unit: Kilometer, distance_override: None }))"
    );
    let e = parse_err(&message(&[array_pair("intersection_name", &[array_pair("routes", &[text_item("本町")])])], "pf_keeporforkstep"));
    assert_eq!(report(&e), "unknown args for pf_keeporforkstep IntersectionName(\"本町\")");
    let e = parse_err(&message(&[array_pair("args", &[symbol_pair("turn_side", "RIGHT")])], "pf_destinationstep_act"));
    assert_eq!(report(&e), "unknown args for pf_destinationstep_act [Args([TurnSide(Right)])]");
}

#[test]
fn key_value_errors() {
    match parse_err(&message(&[symbol_pair("turn_side", "UP")], "pf_turnstep")) {
        ParseError::UnexpectedSymbol(KeyName::TurnSide, s) => assert_eq!(s, "UP"),
        other => panic!("unexpected {:?}", other),
    }
    let e = parse_err(&message(&[symbol_pair("colour", "RED")], "pf_turnstep"));
    match &e {
        ParseError::UnknownKeyValue(k, _) => assert_eq!(k, "colour"),
        other => panic!("unexpected {:?}", other),
    }
    assert_eq!(report(&e), "Unknown key-value pair: colour = SymbolValue(\"RED\")");
    let e = parse_err(&message(&[symbol_pair("traffic_light", "RED")], "pf_turnstep"));
    assert_eq!(report(&e), "Unknown key-value pair: traffic_light = SymbolValue(\"RED\")");
    let e = parse_err(&message(&[unit_pair("other.Type", "UNIT_METERS")], "continue_for_distance"));
    assert_eq!(
        report(&e),
        "Unknown key-value pair: distance_unit = EnumValue(PF4Enum { type_name: \"other.Type\", value: \"UNIT_METERS\" })"
    );
    let e = parse_err(&message(&[cat(&[len_field(1, b"turn_side"), double_field(6, 2.0)])], "pf_turnstep"));
    assert_eq!(report(&e), "Unknown key-value pair: turn_side = FloatValue(2.0)");
    let keyless = len_field(4, b"RED");
    assert!(matches!(parse_err(&message(&[keyless], "pf_mergestep")), ParseError::MissingKey));
    let two_keys = cat(&[len_field(1, b"a"), len_field(1, b"b"), len_field(4, b"c")]);
    assert!(matches!(parse_err(&message(&[two_keys], "pf_mergestep")), ParseError::DuplicateKey));
    let two_values = cat(&[len_field(1, b"a"), len_field(4, b"b"), len_field(4, b"c")]);
    let e = parse_err(&message(&[two_values], "pf_mergestep"));
    assert!(matches!(e, ParseError::DuplicateValue(_)));
    assert_eq!(report(&e), "Duplicate value field in PF4KeyValue: Some(SymbolValue(\"b\"))");
    let varint_key = cat(&[varint_field(1, 3), len_field(4, b"c")]);
    let e = parse_err(&message(&[varint_key], "pf_mergestep"));
    assert!(matches!(e, ParseError::UnexpectedKeyType(_)));
    assert_eq!(
        report(&e),
        "Unexpected field type for field 1 in PF4KeyValue: Varint(Varint([3, 0, 0, 0, 0, 0, 0, 0]))"
    );
    let key_only = len_field(1, b"turn_side");
    assert!(matches!(parse_err(&message(&[key_only], "pf_mergestep")), ParseError::MissingField(MessageKind::PF4KeyValue)));
    let odd_field = cat(&[len_field(1, b"a"), varint_field(9, 1)]);
    assert!(matches!(
        parse_err(&message(&[odd_field], "pf_mergestep")),
        ParseError::UnexpectedField(MessageKind::PF4KeyValue, 9)
    ));
    let bad_text = cat(&[len_field(1, b"turn_side"), len_field(4, &[0xff])]);
    match parse_err(&message(&[bad_text], "pf_mergestep")) {
        ParseError::InvalidUtf8(text) => assert_eq!(text, "invalid utf-8 sequence of 1 bytes from index 0"),
        other => panic!("unexpected {:?}", other),
    }
}

#[test]
fn list_errors() {
    let e = parse_err(&message(&[array_pair("exit_name", &[])], "pf_offrampstep"));
    assert!(matches!(e, ParseError::MissingItems(KeyName::ExitName)));
    assert_eq!(report(&e), "Missing values in exit_name");
    let e = parse_err(&message(&[array_pair("exit_name", &[array_pair("routes", &[])])], "pf_offrampstep"));
    assert!(matches!(e, ParseError::UnknownItem(KeyName::ExitName, _)));
    assert_eq!(report(&e), "Unknown exit_name: Routes(Routes { names: [] })");
    let e = parse_err(&message(&[array_pair("interchange_name", &[array_pair("routes", &[])])], "pf_interchangestep"));
    assert!(matches!(e, ParseError::UnknownItem(KeyName::IntersectionName, _)));
    assert_eq!(report(&e), "Unknown intersection_name: Routes(Routes { names: [] })");
    let two_exits = array_pair(
        "exit_name",
        &[array_pair("exits", &[text_item("a")]), array_pair("exits", &[text_item("b"), text_item("c")])],
    );
    let e = parse_err(&message(&[two_exits], "pf_offrampstep"));
    assert_eq!(
        report(&e),
        "Unknown exit_name: Exits(Exits { names: [NLGData { text: \"b\" }, NLGData { text: \"c\" }] })"
    );
    let e = parse_err(&message(&[array_pair("routes", &[symbol_pair("turn_side", "LEFT")])], "pf_mergestep"));
    assert!(matches!(e, ParseError::UnknownItem(KeyName::Routes, _)));
    assert_eq!(report(&e), "Unknown routes: TurnSide(Left)");
    let e = parse_err(&message(&[array_pair("exits", &[text_item("a"), int_pair("traffic_light", 1)])], "pf_mergestep"));
    assert_eq!(report(&e), "Unknown exits: TrafficLight(TrafficLight { index: -1 })");
    let e = parse_err(&message(&[array_pair("maneuver", &[])], "prepare_distance_message"));
    assert!(matches!(e, ParseError::UnknownStep(KeyName::Maneuver, _)));
    assert_eq!(report(&e), "Unknown maneuver: []");
    let e = parse_err(&message(
        &[array_pair("second_step", &[symbol_pair("turn_side", "LEFT"), symbol_pair("keep_side", "RIGHT")])],
        "combine_merged_guidance_events",
    ));
    assert!(matches!(e, ParseError::UnknownStepParts(KeyName::SecondStep, _, _)));
    assert_eq!(report(&e), "Unknown second_step: TurnSide(Left) KeepSide(Right)");
    let e = parse_err(&message(&[array_pair("first_step", &[distance_pair(0.25)])], "combine_merged_guidance_events"));
    assert_eq!(report(&e), "Unknown first_step: [Distance(0.25)]");
    let nlg_without_text = array_pair("exits", &[len_field(15, &len_field(1, b"id"))]);
    let e = parse_err(&message(&[nlg_without_text], "pf_mergestep"));
    assert!(matches!(e, ParseError::MissingField(MessageKind::PF4NLGData)));
}

#[test]
fn error_messages() {
    assert_eq!(
        report(&ParseError::UnexpectedField(MessageKind::Envelope, 12)),
        "Unexpected field number 12 in envelope"
    );
    assert_eq!(report(&ParseError::MissingField(MessageKind::Envelope)), "Missing required field 2 in StructuredMessage");
    assert_eq!(report(&ParseError::MissingField(MessageKind::PF4KeyValue)), "Missing value in PF4KeyValue");
    assert_eq!(report(&ParseError::MissingArgs(Command::TurnStep)), "missing sharpness or side field in pf_turnstep");
    assert_eq!(
        report(&ParseError::MissingArgs(Command::ContinueForDistance)),
        "Missing field in continue_for_distance"
    );
    assert_eq!(
        report(&ParseError::UnexpectedSymbol(KeyName::LaneGuidanceType, "X".to_string())),
        "Unexpected value for field 'lane_guidance': X"
    );
    assert_eq!(report(&ParseError::MissingItems(KeyName::InterchangeName)), "Missing values in interchange_name");
    assert_eq!(report(&ParseError::Wire("boom".to_string())), "Failed to parse protobuf fields: boom");
    assert_eq!(report(&ParseError::UnknownCommandType("t".to_string())), "Unknown command type t");
    assert_eq!(
        report(&ParseError::UnexpectedKeyType(WireValue::Len(vec![1, 2]))),
        "Unexpected field type for field 1 in PF4KeyValue: Len([1, 2])"
    );
    assert_eq!(
        report(&ParseError::UnexpectedKeyType(WireValue::I32([1, 0, 0, 0]))),
        "Unexpected field type for field 1 in PF4KeyValue: I32([1, 0, 0, 0])"
    );
}

#[test]
fn dump_shows_text_and_nested_fields() {
    let bytes = cat(&[len_field(1, b"key"), varint_field(3, 150), len_field(2, &varint_field(1, 1))]);
    let dump = dump_proto(&bytes, 0).unwrap();
    assert_eq!(
        dump,
        "(\n1: key\n3: Varint(Varint([150, 0, 0, 0, 0, 0, 0, 0]))\n2: (binary data, length 2)\n  (\n  1: Varint(Varint([1, 0, 0, 0, 0, 0, 0, 0]))\n  )\n)\n"
    );
    assert!(matches!(dump_proto(&[0x08], 0), Err(ParseError::Wire(_))));
}

use pf4voice::guidance::{
    DestinationSide, Distance, DistanceUnit, ExitName, Guidance, InterchangeName, Intersection, KeepSide,
    LaneGuidance, SignName, StopSign, TrafficLight, Turn, TurnSharpness, TurnSide, SAMPLE_COUNT,
};
use pf4voice::render::{default_render_guidance, fill_numbers, render_distance_unit, TextPiece};

fn no_intersection() -> Intersection {
    Intersection { name: None, traffic_light: None, stop_sign: None }
}

fn named(name: &str) -> Intersection {
    Intersection { name: Some(name.to_string()), traffic_light: None, stop_sign: None }
}

fn no_sign() -> SignName {
    SignName { direct: None, indirect: None }
}

fn turn(sharpness: TurnSharpness, side: TurnSide) -> Turn {
    Turn { sharpness, side }
}

fn distance(value: f64, unit: DistanceUnit) -> Distance {
    Distance { value_bytes: value.to_le_bytes(), unit, distance_override: None }
}

/// The wording of `g` with its numbers written as std writes an `f64`.
fn wording(g: &Guidance) -> String {
    let pieces = default_render_guidance(g).unwrap();
    let numbers: Vec<String> = pieces
        .iter()
        .filter_map(|p| match p {
            TextPiece::Number(b) => Some(format!("{}", f64::from_le_bytes(*b))),
            TextPiece::Text(_) => None,
        })
        .collect();
    fill_numbers(&pieces, &numbers).unwrap()
}

#[test]
fn straight_step_wording() {
    assert_eq!(wording(&Guidance::StraightStep(None)), "直進します。");
    assert_eq!(wording(&Guidance::StraightStep(Some(LaneGuidance::LeftLane))), "左車線を直進します。");
}

#[test]
fn turn_step_wording() {
    let g = Guidance::TurnStep(
        turn(TurnSharpness::Normal, TurnSide::Right),
        Some(LaneGuidance::Right2Lanes),
        Intersection { name: None, traffic_light: Some(TrafficLight { index: -1 }), stop_sign: None },
    );
    assert_eq!(wording(&g), "右側2車線を使用して信号で右方向です。");
    let g = Guidance::TurnStep(turn(TurnSharpness::Normal, TurnSide::Left), None, named("本町"));
    assert_eq!(wording(&g), "本町で左方向です。");
    let g = Guidance::TurnStep(turn(TurnSharpness::Sharp, TurnSide::Right), None, no_intersection());
    assert_eq!(wording(&g), "右手前方向です。");
}

#[test]
fn intersection_name_marker_is_shortened() {
    let g = Guidance::TurnStep(turn(TurnSharpness::Slight, TurnSide::Left), None, named("本町（交差点）"));
    assert_eq!(wording(&g), "本町交差点で斜め左方向です。");
    let g = Guidance::UTurnStep(named("本町（交差点）"));
    assert_eq!(wording(&g), "本町（交差点）で、Uターンします。");
}

#[test]
fn stop_sign_comes_before_traffic_light() {
    let g = Guidance::TurnStep(
        turn(TurnSharpness::Normal, TurnSide::Left),
        None,
        Intersection {
            name: Some("本町".to_string()),
            traffic_light: Some(TrafficLight { index: -1 }),
            stop_sign: Some(StopSign { index: 2 }),
        },
    );
    assert_eq!(wording(&g), "ずっと先の一時停止の標識で左方向です。");
    let g = Guidance::TurnStep(
        turn(TurnSharpness::Normal, TurnSide::Left),
        None,
        Intersection { name: None, traffic_light: Some(TrafficLight { index: 3 }), stop_sign: None },
    );
    assert_eq!(wording(&g), "ずっと先の信号で左方向です。");
}

#[test]
fn u_turn_wording() {
    assert_eq!(wording(&Guidance::UTurnStep(no_intersection())), "Uターンします。");
    assert_eq!(wording(&Guidance::UTurnStep(named("本町"))), "本町で、Uターンします。");
}

#[test]
fn on_ramp_wording() {
    let g = Guidance::OnRampStep(
        Some(turn(TurnSharpness::Slight, TurnSide::Left)),
        None,
        no_intersection(),
        SignName { direct: Some("東京".to_string()), indirect: Some("千葉".to_string()) },
    );
    assert_eq!(wording(&g), "斜め左方向に進み千葉方面東京のランプに進みます。");
    let g = Guidance::OnRampStep(None, Some(LaneGuidance::MiddleLane), no_intersection(), no_sign());
    assert_eq!(wording(&g), "真ん中の車線を使用してランプに進みます。");
}

#[test]
fn off_ramp_wording() {
    let g = Guidance::OffRampStep(None, Some(ExitName { name: "京葉市川".to_string() }), no_sign());
    assert_eq!(wording(&g), "京葉市川の出口を出ます。");
    let g = Guidance::OffRampStep(None, Some(ExitName { name: "市川インターチェンジ".to_string() }), no_sign());
    assert_eq!(wording(&g), "市川出口を出ます。");
    let g = Guidance::OffRampStep(
        Some(LaneGuidance::SecondFromRight),
        None,
        SignName { direct: None, indirect: Some("船橋".to_string()) },
    );
    assert_eq!(wording(&g), "右から2番目の車線を使用して船橋方面出口を出ます。");
}

#[test]
fn keep_merge_and_interchange_wording() {
    assert_eq!(
        wording(&Guidance::KeepOrForkStep(KeepSide::Right, Some(LaneGuidance::AnyLane))),
        "任意の車線を使用して右側を進みます。"
    );
    assert_eq!(wording(&Guidance::KeepOrForkStep(KeepSide::Left, None)), "左側を進みます。");
    assert_eq!(wording(&Guidance::MergeStep(Some(LaneGuidance::LeftLane))), "左車線を進み合流します。");
    assert_eq!(wording(&Guidance::MergeStep(None)), "合流します。");
    let g = Guidance::InterchangeStep(
        None,
        InterchangeName { name: "JCT".to_string() },
        SignName { direct: Some("大宮".to_string()), indirect: None },
    );
    assert_eq!(wording(&g), "JCTで大宮へ進みます。");
}

#[test]
fn destination_wording() {
    assert_eq!(wording(&Guidance::DestinationStepPrepare(Some(DestinationSide::Left))), "目的地は左側です。");
    assert_eq!(wording(&Guidance::DestinationStepPrepare(Some(DestinationSide::Right))), "目的地は右側です。");
    assert_eq!(wording(&Guidance::DestinationStepPrepare(None)), "まもなく目的地です。");
    assert_eq!(wording(&Guidance::DestinationStepAct), "目的地に到着しました");
}

#[test]
fn distances_leave_a_slot_for_their_number() {
    let bytes = 500.0f64.to_le_bytes();
    let g = Guidance::PrepareDistanceMessage(
        Distance { value_bytes: bytes, unit: DistanceUnit::Meter, distance_override: None },
        Box::new(Guidance::TurnStep(
            turn(TurnSharpness::Normal, TurnSide::Right),
            Some(LaneGuidance::Right2Lanes),
            no_intersection(),
        )),
    );
    let pieces = default_render_guidance(&g).unwrap();
    assert_eq!(
        pieces,
        vec![
            TextPiece::Text("およそ".to_string()),
            TextPiece::Number(bytes),
            TextPiece::Text("メートル先、".to_string()),
            TextPiece::Text("右側2車線を使用して右方向です。".to_string()),
        ]
    );
    assert_eq!(
        fill_numbers(&pieces, &vec!["500".to_string()]).unwrap(),
        "およそ500メートル先、右側2車線を使用して右方向です。"
    );
    assert_eq!(wording(&g), "およそ500メートル先、右側2車線を使用して右方向です。");
}

#[test]
fn continue_and_combined_wording() {
    assert_eq!(
        wording(&Guidance::ContinueForDistance(distance(1.0, DistanceUnit::Kilometer))),
        "およそ1キロ道なりです。"
    );
    assert_eq!(
        wording(&Guidance::ContinueForDistance(distance(2.5, DistanceUnit::Mile))),
        "およそ2.5マイル道なりです。"
    );
    let g = Guidance::CombineMergedGuidanceEvents(
        Box::new(Guidance::DestinationStepPrepare(None)),
        Box::new(Guidance::StraightStep(Some(LaneGuidance::LeftLane))),
    );
    assert_eq!(wording(&g), "まもなく目的地です。続いて、左車線を直進します。");
    let g = Guidance::CombineMergedGuidanceEvents(
        Box::new(Guidance::PrepareDistanceMessage(
            distance(400.0, DistanceUnit::Meter),
            Box::new(Guidance::OffRampStep(None, Some(ExitName { name: "京葉市川".to_string() }), no_sign())),
        )),
        Box::new(Guidance::ContinueForDistance(distance(3.0, DistanceUnit::Kilometer))),
    );
    assert_eq!(wording(&g), "およそ400メートル先、京葉市川の出口を出ます。続いて、およそ3キロ道なりです。");
}

#[test]
fn filling_needs_one_number_per_slot() {
    let g = Guidance::CombineMergedGuidanceEvents(
        Box::new(Guidance::ContinueForDistance(distance(1.0, DistanceUnit::Kilometer))),
        Box::new(Guidance::ContinueForDistance(distance(2.0, DistanceUnit::Kilometer))),
    );
    let pieces = default_render_guidance(&g).unwrap();
    assert_eq!(fill_numbers(&pieces, &vec![]), None);
    assert_eq!(fill_numbers(&pieces, &vec!["1".to_string()]), None);
    assert_eq!(
        fill_numbers(&pieces, &vec!["1".to_string(), "2".to_string(), "3".to_string()]),
        None
    );
    assert_eq!(
        fill_numbers(&pieces, &vec!["1".to_string(), "2".to_string()]).unwrap(),
        "およそ1キロ道なりです。続いて、およそ2キロ道なりです。"
    );
    let plain = default_render_guidance(&Guidance::DestinationStepAct).unwrap();
    assert_eq!(fill_numbers(&plain, &vec!["1".to_string()]), None);
    assert_eq!(fill_numbers(&plain, &vec![]).unwrap(), "目的地に到着しました");
}

#[test]
fn distance_unit_words() {
    assert_eq!(render_distance_unit(DistanceUnit::Meter), "メートル");
    assert_eq!(render_distance_unit(DistanceUnit::Kilometer), "キロ");
    assert_eq!(render_distance_unit(DistanceUnit::Mile), "マイル");
}

#[test]
fn all_variants_covers_every_combination() {
    let all = Guidance::all_variants();
    assert_eq!(all.len(), SAMPLE_COUNT);
    assert_eq!(all.len(), 288);
    assert_eq!(all[0], Guidance::TurnStep(turn(TurnSharpness::Slight, TurnSide::Left), None, no_intersection()));
    assert_eq!(
        all[287],
        Guidance::TurnStep(turn(TurnSharpness::Sharp, TurnSide::Right), Some(LaneGuidance::AnyLane), named("交差点"))
    );
    assert_eq!(
        all[3 * 48 + 5 * 6 + 1],
        Guidance::TurnStep(
            turn(TurnSharpness::Normal, TurnSide::Right),
            Some(LaneGuidance::Right2Lanes),
            Intersection { name: None, traffic_light: Some(TrafficLight { index: -1 }), stop_sign: None },
        )
    );
    assert_eq!(
        all[4],
        Guidance::TurnStep(
            turn(TurnSharpness::Slight, TurnSide::Left),
            None,
            Intersection { name: None, traffic_light: None, stop_sign: Some(StopSign { index: 1 }) },
        )
    );
    for (i, a) in all.iter().enumerate() {
        for b in all.iter().skip(i + 1) {
            assert_ne!(a, b);
        }
    }
}

#[test]
fn all_constants_list_every_value_once() {
    assert_eq!(TurnSharpness::ALL, [TurnSharpness::Slight, TurnSharpness::Normal, TurnSharpness::Sharp]);
    assert_eq!(TurnSide::ALL, [TurnSide::Left, TurnSide::Right]);
    assert_eq!(KeepSide::ALL, [KeepSide::Left, KeepSide::Right]);
    assert_eq!(DestinationSide::ALL, [DestinationSide::Left, DestinationSide::Right]);
    assert_eq!(LaneGuidance::ALL.len(), 7);
    assert_eq!(LaneGuidance::ALL[0], LaneGuidance::LeftLane);
    assert_eq!(LaneGuidance::ALL[6], LaneGuidance::AnyLane);
}

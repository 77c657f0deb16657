//! The route guidance events that a PF4 structured message describes.
use vstd::prelude::*;

verus! {

/// The guidance event carried by a structured message.
#[derive(Debug, PartialEq)]
pub enum Guidance {
    StraightStep(Option<LaneGuidance>),
    TurnStep(Turn, Option<LaneGuidance>, Intersection),
    UTurnStep(Intersection),
    OnRampStep(Option<Turn>, Option<LaneGuidance>, Intersection, SignName),
    OffRampStep(Option<LaneGuidance>, Option<ExitName>, SignName),
    KeepOrForkStep(KeepSide, Option<LaneGuidance>),
    MergeStep(Option<LaneGuidance>),
    InterchangeStep(Option<LaneGuidance>, InterchangeName, SignName),
    DestinationStepPrepare(Option<DestinationSide>),
    DestinationStepAct,
    ContinueForDistance(Distance),
    PrepareDistanceMessage(Distance, Box<Guidance>),
    CombineMergedGuidanceEvents(Box<Guidance>, Box<Guidance>),
}

#[derive(Debug, Clone, Copy, PartialEq, Eq, Structural)]
pub enum DistanceUnit {
    Meter,
    Kilometer,
    Mile,
}

/// A distance as the message states it.
///
/// `value_bytes` is the IEEE 754 binary64 value of the distance in little-endian
/// byte order, exactly as it stands on the wire; the numeric value is read from it
/// where it is formatted.
#[derive(Debug, Clone, PartialEq)]
pub struct Distance {
    pub value_bytes: [u8; 8],
    pub unit: DistanceUnit,
    pub distance_override: Option<String>,
}

#[derive(Debug, Clone, Copy, PartialEq, Eq, Structural)]
pub enum TurnSharpness {
    Slight,
    Normal,
    Sharp,
}

impl TurnSharpness {
    pub const ALL: [TurnSharpness; 3] = [TurnSharpness::Slight, TurnSharpness::Normal, TurnSharpness::Sharp];
}

#[derive(Debug, Clone, Copy, PartialEq, Eq, Structural)]
pub enum TurnSide {
    Left,
    Right,
}

impl TurnSide {
    pub const ALL: [TurnSide; 2] = [TurnSide::Left, TurnSide::Right];
}

#[derive(Debug, Clone, Copy, PartialEq, Eq, Structural)]
pub struct Turn {
    pub sharpness: TurnSharpness,
    pub side: TurnSide,
}

#[derive(Debug, Clone, Copy, PartialEq, Eq, Structural)]
pub enum KeepSide {
    Left,
    Right,
}

impl KeepSide {
    pub const ALL: [KeepSide; 2] = [KeepSide::Left, KeepSide::Right];
}

#[derive(Debug, Clone, Copy, PartialEq, Eq, Structural)]
pub enum DestinationSide {
    Left,
    Right,
}

impl DestinationSide {
    pub const ALL: [DestinationSide; 2] = [DestinationSide::Left, DestinationSide::Right];
}

#[derive(Debug, Clone, Copy, PartialEq, Eq, Structural)]
pub enum LaneGuidance {
    LeftLane,
    Left2Lanes,
    MiddleLane,
    RightLane,
    Right2Lanes,
    SecondFromRight,
    AnyLane,
}

impl LaneGuidance {
    pub const ALL: [LaneGuidance; 7] = [
        LaneGuidance::LeftLane,
        LaneGuidance::Left2Lanes,
        LaneGuidance::MiddleLane,
        LaneGuidance::RightLane,
        LaneGuidance::Right2Lanes,
        LaneGuidance::SecondFromRight,
        LaneGuidance::AnyLane,
    ];
}

#[derive(Debug, Clone, Copy, PartialEq, Eq, Structural)]
pub struct TrafficLight {
    pub index: i64,
}

#[derive(Debug, Clone, Copy, PartialEq, Eq, Structural)]
pub struct StopSign {
    pub index: i64,
}

#[derive(Debug, Clone, PartialEq)]
pub struct Intersection {
    pub name: Option<String>,
    pub traffic_light: Option<TrafficLight>,
    pub stop_sign: Option<StopSign>,
}

#[derive(Debug, PartialEq)]
pub struct InterchangeName {
    pub name: String,
}

#[derive(Debug, PartialEq)]
pub struct ExitName {
    pub name: String,
}

#[derive(Debug, PartialEq)]
pub struct SignName {
    pub direct: Option<String>,
    pub indirect: Option<String>,
}

// ---------------------------------------------------------------------------
// Mathematical models: text as sequences of characters.
// ---------------------------------------------------------------------------

pub open spec fn opt_text(s: Option<String>) -> Option<Seq<char>> {
    match s {
        Some(t) => Some(t@),
        None => None,
    }
}

pub struct SpecDistance {
    pub value_bytes: [u8; 8],
    pub unit: DistanceUnit,
    pub distance_override: Option<Seq<char>>,
}

pub struct SpecIntersection {
    pub name: Option<Seq<char>>,
    pub traffic_light: Option<TrafficLight>,
    pub stop_sign: Option<StopSign>,
}

pub struct SpecSignName {
    pub direct: Option<Seq<char>>,
    pub indirect: Option<Seq<char>>,
}

/// The model of a [`Guidance`]: every name is its sequence of characters.
pub enum SpecGuidance {
    StraightStep(Option<LaneGuidance>),
    TurnStep(Turn, Option<LaneGuidance>, SpecIntersection),
    UTurnStep(SpecIntersection),
    OnRampStep(Option<Turn>, Option<LaneGuidance>, SpecIntersection, SpecSignName),
    OffRampStep(Option<LaneGuidance>, Option<Seq<char>>, SpecSignName),
    KeepOrForkStep(KeepSide, Option<LaneGuidance>),
    MergeStep(Option<LaneGuidance>),
    InterchangeStep(Option<LaneGuidance>, Seq<char>, SpecSignName),
    DestinationStepPrepare(Option<DestinationSide>),
    DestinationStepAct,
    ContinueForDistance(SpecDistance),
    PrepareDistanceMessage(SpecDistance, Box<SpecGuidance>),
    CombineMergedGuidanceEvents(Box<SpecGuidance>, Box<SpecGuidance>),
}

impl View for Distance {
    type V = SpecDistance;

    open spec fn view(&self) -> SpecDistance {
        SpecDistance {
            value_bytes: self.value_bytes,
            unit: self.unit,
            distance_override: opt_text(self.distance_override),
        }
    }
}

impl View for Intersection {
    type V = SpecIntersection;

    open spec fn view(&self) -> SpecIntersection {
        SpecIntersection {
            name: opt_text(self.name),
            traffic_light: self.traffic_light,
            stop_sign: self.stop_sign,
        }
    }
}

impl View for SignName {
    type V = SpecSignName;

    open spec fn view(&self) -> SpecSignName {
        SpecSignName { direct: opt_text(self.direct), indirect: opt_text(self.indirect) }
    }
}

pub open spec fn guidance_model(g: Guidance) -> SpecGuidance
    decreases g,
{
    match g {
        Guidance::StraightStep(l) => SpecGuidance::StraightStep(l),
        Guidance::TurnStep(t, l, i) => SpecGuidance::TurnStep(t, l, i@),
        Guidance::UTurnStep(i) => SpecGuidance::UTurnStep(i@),
        Guidance::OnRampStep(t, l, i, s) => SpecGuidance::OnRampStep(t, l, i@, s@),
        Guidance::OffRampStep(l, e, s) => SpecGuidance::OffRampStep(
            l,
            match e {
                Some(n) => Some(n.name@),
                None => None,
            },
            s@,
        ),
        Guidance::KeepOrForkStep(k, l) => SpecGuidance::KeepOrForkStep(k, l),
        Guidance::MergeStep(l) => SpecGuidance::MergeStep(l),
        Guidance::InterchangeStep(l, n, s) => SpecGuidance::InterchangeStep(l, n.name@, s@),
        Guidance::DestinationStepPrepare(d) => SpecGuidance::DestinationStepPrepare(d),
        Guidance::DestinationStepAct => SpecGuidance::DestinationStepAct,
        Guidance::ContinueForDistance(d) => SpecGuidance::ContinueForDistance(d@),
        Guidance::PrepareDistanceMessage(d, inner) => SpecGuidance::PrepareDistanceMessage(
            d@,
            Box::new(guidance_model(*inner)),
        ),
        Guidance::CombineMergedGuidanceEvents(first, second) =>
            SpecGuidance::CombineMergedGuidanceEvents(
                Box::new(guidance_model(*first)),
                Box::new(guidance_model(*second)),
            ),
    }
}

impl View for Guidance {
    type V = SpecGuidance;

    open spec fn view(&self) -> SpecGuidance {
        guidance_model(*self)
    }
}

// ---------------------------------------------------------------------------
// Sample turn steps
// ---------------------------------------------------------------------------

/// The `k`-th turn: sharpnesses in the order of `TurnSharpness::ALL`, and for
/// each the sides in the order of `TurnSide::ALL`.
pub open spec fn sample_turn(k: int) -> Turn {
    Turn {
        sharpness: if k / 2 == 0 {
            TurnSharpness::Slight
        } else if k / 2 == 1 {
            TurnSharpness::Normal
        } else {
            TurnSharpness::Sharp
        },
        side: if k % 2 == 0 {
            TurnSide::Left
        } else {
            TurnSide::Right
        },
    }
}

/// The `k`-th lane option: none, then the lanes in the order of `LaneGuidance::ALL`.
pub open spec fn sample_lane(k: int) -> Option<LaneGuidance> {
    if k == 0 {
        None
    } else if k == 1 {
        Some(LaneGuidance::LeftLane)
    } else if k == 2 {
        Some(LaneGuidance::Left2Lanes)
    } else if k == 3 {
        Some(LaneGuidance::MiddleLane)
    } else if k == 4 {
        Some(LaneGuidance::RightLane)
    } else if k == 5 {
        Some(LaneGuidance::Right2Lanes)
    } else if k == 6 {
        Some(LaneGuidance::SecondFromRight)
    } else {
        Some(LaneGuidance::AnyLane)
    }
}

/// The `k`-th intersection: a bare one; at the traffic light (index -1) and at
/// a farther one (index 1); at the stop sign (index -1) and at a farther one
/// (index 1); a named one, `交差点`.
pub open spec fn sample_intersection(k: int) -> SpecIntersection {
    if k == 0 {
        SpecIntersection { name: None, traffic_light: None, stop_sign: None }
    } else if k == 1 {
        SpecIntersection { name: None, traffic_light: Some(TrafficLight { index: -1i64 }), stop_sign: None }
    } else if k == 2 {
        SpecIntersection { name: None, traffic_light: Some(TrafficLight { index: 1i64 }), stop_sign: None }
    } else if k == 3 {
        SpecIntersection { name: None, traffic_light: None, stop_sign: Some(StopSign { index: -1i64 }) }
    } else if k == 4 {
        SpecIntersection { name: None, traffic_light: None, stop_sign: Some(StopSign { index: 1i64 }) }
    } else {
        SpecIntersection { name: Some("交差点"@), traffic_light: None, stop_sign: None }
    }
}

/// The number of sample turn steps: 6 turns, 8 lane options, 6 intersections.
pub const SAMPLE_COUNT: usize = 288;

/// The `k`-th sample turn step: every combination of turn, lane option and
/// intersection, the turn varying slowest and the intersection fastest.
pub open spec fn sample_turn_step(k: int) -> SpecGuidance {
    SpecGuidance::TurnStep(sample_turn(k / 48), sample_lane((k / 6) % 8), sample_intersection(k % 6))
}

fn turn_at(k: usize) -> (r: Turn)
    requires
        k < 6,
    ensures
        r == sample_turn(k as int),
{
    let sharpness = if k / 2 == 0 {
        TurnSharpness::Slight
    } else if k / 2 == 1 {
        TurnSharpness::Normal
    } else {
        TurnSharpness::Sharp
    };
    let side = if k % 2 == 0 {
        TurnSide::Left
    } else {
        TurnSide::Right
    };
    Turn { sharpness, side }
}

fn lane_at(k: usize) -> (r: Option<LaneGuidance>)
    requires
        k < 8,
    ensures
        r == sample_lane(k as int),
{
    if k == 0 {
        None
    } else if k == 1 {
        Some(LaneGuidance::LeftLane)
    } else if k == 2 {
        Some(LaneGuidance::Left2Lanes)
    } else if k == 3 {
        Some(LaneGuidance::MiddleLane)
    } else if k == 4 {
        Some(LaneGuidance::RightLane)
    } else if k == 5 {
        Some(LaneGuidance::Right2Lanes)
    } else if k == 6 {
        Some(LaneGuidance::SecondFromRight)
    } else {
        Some(LaneGuidance::AnyLane)
    }
}

fn intersection_at(k: usize) -> (r: Intersection)
    requires
        k < 6,
    ensures
        r@ == sample_intersection(k as int),
{
    if k == 0 {
        Intersection { name: None, traffic_light: None, stop_sign: None }
    } else if k == 1 {
        Intersection { name: None, traffic_light: Some(TrafficLight { index: -1 }), stop_sign: None }
    } else if k == 2 {
        Intersection { name: None, traffic_light: Some(TrafficLight { index: 1 }), stop_sign: None }
    } else if k == 3 {
        Intersection { name: None, traffic_light: None, stop_sign: Some(StopSign { index: -1 }) }
    } else if k == 4 {
        Intersection { name: None, traffic_light: None, stop_sign: Some(StopSign { index: 1 }) }
    } else {
        Intersection { name: Some(String::from_str("交差点")), traffic_light: None, stop_sign: None }
    }
}

impl Guidance {
    /// Sample guidance for trying out renderings: every turn step over the
    /// sample turns, lane options and intersections.
    pub fn all_variants() -> (r: Vec<Guidance>)
        ensures
            r@.len() == SAMPLE_COUNT,
            forall|k: int| 0 <= k < SAMPLE_COUNT ==> #[trigger] r@[k]@ == sample_turn_step(k),
    {
        let mut out: Vec<Guidance> = Vec::new();
        let mut k: usize = 0;
        while k < SAMPLE_COUNT
            invariant
                k <= SAMPLE_COUNT,
                out@.len() == k,
                forall|j: int| 0 <= j < k ==> #[trigger] out@[j]@ == sample_turn_step(j),
            decreases SAMPLE_COUNT - k,
        {
            let g = Guidance::TurnStep(turn_at(k / 48), lane_at((k / 6) % 8), intersection_at(k % 6));
            out.push(g);
            k += 1;
        }
        out
    }
}

/// Every combination of a sample turn, lane option and intersection is among
/// the sample turn steps, at its own index.
pub proof fn law_every_sample_combination_present(t: int, l: int, i: int)
    requires
        0 <= t < 6,
        0 <= l < 8,
        0 <= i < 6,
    ensures
        t * 48 + l * 6 + i < SAMPLE_COUNT,
        sample_turn_step(t * 48 + l * 6 + i) == SpecGuidance::TurnStep(
            sample_turn(t),
            sample_lane(l),
            sample_intersection(i),
        ),
{
    let k = t * 48 + l * 6 + i;
    assert(k / 48 == t && (k / 6) % 8 == l && k % 6 == i && k < 288) by (nonlinear_arith)
        requires
            k == t * 48 + l * 6 + i,
            0 <= t < 6,
            0 <= l < 8,
            0 <= i < 6,
    ;
}

} // verus!

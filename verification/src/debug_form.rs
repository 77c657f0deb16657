//! The debugging form of the message's values, as the derived `Debug` of these
//! types writes them (`{:?}`), for error reports. A distance is a binary64
//! number; its form is left as a slot ([`TextPiece::Number`]) for the caller.
use crate::guidance::{
    DestinationSide, Distance, DistanceUnit, ExitName, Guidance, InterchangeName, Intersection,
    KeepSide, LaneGuidance, SignName, SpecDistance, SpecGuidance, SpecIntersection, SpecSignName,
    StopSign, TrafficLight, Turn, TurnSharpness, TurnSide,
};
use crate::pathfinder4::{
    nlg_texts, values_model, NLGData, PF4Enum, PF4RawValue, SpecEnum, SpecRawValue, SpecValue,
    Value,
};
use crate::render::{pieces_view, SpecPiece, TextPiece};
use crate::text::{decimal, decimal_text, join};
use crate::voices::{debug_quoted, debug_text};
use vstd::prelude::*;

verus! {

// ---------------------------------------------------------------------------
// Forms without numbers
// ---------------------------------------------------------------------------

/// A signed integer in decimal, with `-` before a negative one.
pub open spec fn i64_form(i: i64) -> Seq<char> {
    if i < 0 {
        "-"@ + decimal((-i) as nat)
    } else {
        decimal(i as nat)
    }
}

fn i64_text(i: i64) -> (r: String)
    ensures
        r@ == i64_form(i),
{
    if i < 0 {
        let m: u64 = ((-(i + 1)) as u64) + 1;
        assert(m == -i);
        let mut s = String::from_str("-");
        s.append(decimal_text(m).as_str());
        s
    } else {
        decimal_text(i as u64)
    }
}

pub open spec fn opt_quoted_form(o: Option<Seq<char>>) -> Seq<char> {
    match o {
        Some(s) => "Some("@ + debug_quoted(s) + ")"@,
        None => "None"@,
    }
}

fn opt_quoted_text(o: &Option<String>) -> (r: String)
    ensures
        r@ == opt_quoted_form(match o {
            Some(s) => Some(s@),
            None => None,
        }),
{
    match o {
        Some(s) => {
            let mut r = String::from_str("Some(");
            r.append(debug_text(s.as_str()).as_str());
            r.append(")");
            r
        },
        None => String::from_str("None"),
    }
}

pub open spec fn unit_form(u: DistanceUnit) -> Seq<char> {
    match u {
        DistanceUnit::Meter => "Meter"@,
        DistanceUnit::Kilometer => "Kilometer"@,
        DistanceUnit::Mile => "Mile"@,
    }
}

fn unit_text(u: DistanceUnit) -> (r: &'static str)
    ensures
        r@ == unit_form(u),
{
    match u {
        DistanceUnit::Meter => "Meter",
        DistanceUnit::Kilometer => "Kilometer",
        DistanceUnit::Mile => "Mile",
    }
}

pub open spec fn sharpness_form(x: TurnSharpness) -> Seq<char> {
    match x {
        TurnSharpness::Slight => "Slight"@,
        TurnSharpness::Normal => "Normal"@,
        TurnSharpness::Sharp => "Sharp"@,
    }
}

fn sharpness_text(x: TurnSharpness) -> (r: &'static str)
    ensures
        r@ == sharpness_form(x),
{
    match x {
        TurnSharpness::Slight => "Slight",
        TurnSharpness::Normal => "Normal",
        TurnSharpness::Sharp => "Sharp",
    }
}

/// The form of a side: `Left` or `Right`.
pub open spec fn side_form(left: bool) -> Seq<char> {
    if left {
        "Left"@
    } else {
        "Right"@
    }
}

fn side_text(left: bool) -> (r: &'static str)
    ensures
        r@ == side_form(left),
{
    if left {
        "Left"
    } else {
        "Right"
    }
}

pub open spec fn lane_form(x: LaneGuidance) -> Seq<char> {
    match x {
        LaneGuidance::LeftLane => "LeftLane"@,
        LaneGuidance::Left2Lanes => "Left2Lanes"@,
        LaneGuidance::MiddleLane => "MiddleLane"@,
        LaneGuidance::RightLane => "RightLane"@,
        LaneGuidance::Right2Lanes => "Right2Lanes"@,
        LaneGuidance::SecondFromRight => "SecondFromRight"@,
        LaneGuidance::AnyLane => "AnyLane"@,
    }
}

fn lane_text(x: LaneGuidance) -> (r: &'static str)
    ensures
        r@ == lane_form(x),
{
    match x {
        LaneGuidance::LeftLane => "LeftLane",
        LaneGuidance::Left2Lanes => "Left2Lanes",
        LaneGuidance::MiddleLane => "MiddleLane",
        LaneGuidance::RightLane => "RightLane",
        LaneGuidance::Right2Lanes => "Right2Lanes",
        LaneGuidance::SecondFromRight => "SecondFromRight",
        LaneGuidance::AnyLane => "AnyLane",
    }
}

pub open spec fn opt_lane_form(o: Option<LaneGuidance>) -> Seq<char> {
    match o {
        Some(x) => "Some("@ + lane_form(x) + ")"@,
        None => "None"@,
    }
}

fn opt_lane_text(o: Option<LaneGuidance>) -> (r: String)
    ensures
        r@ == opt_lane_form(o),
{
    match o {
        Some(x) => {
            let mut r = String::from_str("Some(");
            r.append(lane_text(x));
            r.append(")");
            r
        },
        None => String::from_str("None"),
    }
}

pub open spec fn turn_form(t: Turn) -> Seq<char> {
    "Turn { sharpness: "@ + sharpness_form(t.sharpness) + ", side: "@ + side_form(
        t.side == TurnSide::Left,
    ) + " }"@
}

fn turn_text(t: Turn) -> (r: String)
    ensures
        r@ == turn_form(t),
{
    let mut r = String::from_str("Turn { sharpness: ");
    r.append(sharpness_text(t.sharpness));
    r.append(", side: ");
    r.append(side_text(t.side == TurnSide::Left));
    r.append(" }");
    r
}

pub open spec fn opt_turn_form(o: Option<Turn>) -> Seq<char> {
    match o {
        Some(t) => "Some("@ + turn_form(t) + ")"@,
        None => "None"@,
    }
}

fn opt_turn_text(o: Option<Turn>) -> (r: String)
    ensures
        r@ == opt_turn_form(o),
{
    match o {
        Some(t) => {
            let mut r = String::from_str("Some(");
            r.append(turn_text(t).as_str());
            r.append(")");
            r
        },
        None => String::from_str("None"),
    }
}

pub open spec fn light_form(t: TrafficLight) -> Seq<char> {
    "TrafficLight { index: "@ + i64_form(t.index) + " }"@
}

fn light_text(t: TrafficLight) -> (r: String)
    ensures
        r@ == light_form(t),
{
    let mut r = String::from_str("TrafficLight { index: ");
    r.append(i64_text(t.index).as_str());
    r.append(" }");
    r
}

pub open spec fn stop_form(t: StopSign) -> Seq<char> {
    "StopSign { index: "@ + i64_form(t.index) + " }"@
}

fn stop_text(t: StopSign) -> (r: String)
    ensures
        r@ == stop_form(t),
{
    let mut r = String::from_str("StopSign { index: ");
    r.append(i64_text(t.index).as_str());
    r.append(" }");
    r
}

pub open spec fn intersection_form(i: SpecIntersection) -> Seq<char> {
    "Intersection { name: "@ + opt_quoted_form(i.name) + ", traffic_light: "@ + match i.traffic_light {
        Some(t) => "Some("@ + light_form(t) + ")"@,
        None => "None"@,
    } + ", stop_sign: "@ + match i.stop_sign {
        Some(t) => "Some("@ + stop_form(t) + ")"@,
        None => "None"@,
    } + " }"@
}

fn intersection_text(i: &Intersection) -> (r: String)
    ensures
        r@ == intersection_form(i@),
{
    let mut r = String::from_str("Intersection { name: ");
    r.append(opt_quoted_text(&i.name).as_str());
    r.append(", traffic_light: ");
    match i.traffic_light {
        Some(t) => {
            r.append("Some(");
            r.append(light_text(t).as_str());
            r.append(")");
        },
        None => r.append("None"),
    }
    r.append(", stop_sign: ");
    match i.stop_sign {
        Some(t) => {
            r.append("Some(");
            r.append(stop_text(t).as_str());
            r.append(")");
        },
        None => r.append("None"),
    }
    r.append(" }");
    r
}

pub open spec fn sign_form(s: SpecSignName) -> Seq<char> {
    "SignName { direct: "@ + opt_quoted_form(s.direct) + ", indirect: "@ + opt_quoted_form(
        s.indirect,
    ) + " }"@
}

fn sign_text(s: &SignName) -> (r: String)
    ensures
        r@ == sign_form(s@),
{
    let mut r = String::from_str("SignName { direct: ");
    r.append(opt_quoted_text(&s.direct).as_str());
    r.append(", indirect: ");
    r.append(opt_quoted_text(&s.indirect).as_str());
    r.append(" }");
    r
}

/// `Name { name: "..." }`, the form of an exit or interchange name.
pub open spec fn named_form(kind: Seq<char>, name: Seq<char>) -> Seq<char> {
    kind + " { name: "@ + debug_quoted(name) + " }"@
}

fn named_text(kind: &str, name: &String) -> (r: String)
    ensures
        r@ == named_form(kind@, name@),
{
    let mut r = String::from_str(kind);
    r.append(" { name: ");
    r.append(debug_text(name.as_str()).as_str());
    r.append(" }");
    r
}

pub open spec fn enum_form(e: SpecEnum) -> Seq<char> {
    "PF4Enum { type_name: "@ + debug_quoted(e.enum_type) + ", value: "@ + debug_quoted(e.value)
        + " }"@
}

fn enum_text(e: &PF4Enum) -> (r: String)
    ensures
        r@ == enum_form(e@),
{
    let mut r = String::from_str("PF4Enum { type_name: ");
    r.append(debug_text(e.enum_type.as_str()).as_str());
    r.append(", value: ");
    r.append(debug_text(e.value.as_str()).as_str());
    r.append(" }");
    r
}

/// The form of a list of text data: `[NLGData { text: "..." }, ...]`.
pub open spec fn nlg_list_form(ts: Seq<Seq<char>>) -> Seq<char> {
    "["@ + join(ts.map_values(|t: Seq<char>| "NLGData { text: "@ + debug_quoted(t) + " }"@), ", "@)
        + "]"@
}

fn nlg_list_text(names: &Vec<NLGData>) -> (r: String)
    ensures
        r@ == nlg_list_form(nlg_texts(names@)),
{
    let ghost parts = nlg_texts(names@).map_values(
        |t: Seq<char>| "NLGData { text: "@ + debug_quoted(t) + " }"@,
    );
    let mut out = String::new();
    let n = names.len();
    let mut i: usize = 0;
    while i < n
        invariant
            n == names@.len(),
            i <= n,
            parts == nlg_texts(names@).map_values(
                |t: Seq<char>| "NLGData { text: "@ + debug_quoted(t) + " }"@,
            ),
            out@ == join(parts.take(i as int), ", "@),
        decreases n - i,
    {
        assert(parts.take(i + 1).drop_last() =~= parts.take(i as int));
        if i > 0 {
            out.append(", ");
        }
        out.append("NLGData { text: ");
        out.append(debug_text(names[i].text.as_str()).as_str());
        out.append(" }");
        i += 1;
        proof {
            assert(parts.take(i as int).last() == parts[i - 1]);
            if i == 1 {
                assert(out@ =~= parts.take(1)[0]);
            } else {
                assert(out@ =~= join(parts.take(i - 1), ", "@) + ", "@ + parts[i - 1]);
            }
        }
    }
    assert(parts.take(n as int) =~= parts);
    let mut r = String::from_str("[");
    r.append(out.as_str());
    r.append("]");
    r
}

// ---------------------------------------------------------------------------
// Forms with number slots
// ---------------------------------------------------------------------------

/// One text piece.
pub open spec fn txt(s: Seq<char>) -> Seq<SpecPiece> {
    seq![SpecPiece::Text(s)]
}

pub(crate) fn push_text(out: &mut Vec<TextPiece>, s: String)
    ensures
        pieces_view(final(out)@) == pieces_view(old(out)@) + txt(s@),
{
    let ghost before = out@;
    out.push(TextPiece::Text(s));
    assert(pieces_view(out@) =~= pieces_view(before) + txt(s@));
}

pub(crate) fn push_str(out: &mut Vec<TextPiece>, s: &str)
    ensures
        pieces_view(final(out)@) == pieces_view(old(out)@) + txt(s@),
{
    push_text(out, String::from_str(s));
}

fn push_number(out: &mut Vec<TextPiece>, b: [u8; 8])
    ensures
        pieces_view(final(out)@) == pieces_view(old(out)@) + seq![SpecPiece::Number(b)],
{
    let ghost before = out@;
    out.push(TextPiece::Number(b));
    assert(pieces_view(out@) =~= pieces_view(before) + seq![SpecPiece::Number(b)]);
}

/// `Distance { value: <number>, unit: ..., distance_override: ... }`.
pub open spec fn distance_form(d: SpecDistance) -> Seq<SpecPiece> {
    txt("Distance { value: "@) + seq![SpecPiece::Number(d.value_bytes)] + txt(
        ", unit: "@ + unit_form(d.unit) + ", distance_override: "@ + opt_quoted_form(
            d.distance_override,
        ) + " }"@,
    )
}

fn write_distance(d: &Distance, out: &mut Vec<TextPiece>)
    ensures
        pieces_view(final(out)@) == pieces_view(old(out)@) + distance_form(d@),
{
    let ghost start = pieces_view(out@);
    push_str(out, "Distance { value: ");
    push_number(out, d.value_bytes);
    let mut rest = String::from_str(", unit: ");
    rest.append(unit_text(d.unit));
    rest.append(", distance_override: ");
    rest.append(opt_quoted_text(&d.distance_override).as_str());
    rest.append(" }");
    push_text(out, rest);
    assert(pieces_view(out@) =~= start + distance_form(d@));
}

/// The form of a guidance event without distances.
pub open spec fn plain_guidance_form(g: SpecGuidance) -> Seq<char> {
    match g {
        SpecGuidance::StraightStep(l) => "StraightStep("@ + opt_lane_form(l) + ")"@,
        SpecGuidance::TurnStep(t, l, i) => "TurnStep("@ + turn_form(t) + ", "@ + opt_lane_form(l)
            + ", "@ + intersection_form(i) + ")"@,
        SpecGuidance::UTurnStep(i) => "UTurnStep("@ + intersection_form(i) + ")"@,
        SpecGuidance::OnRampStep(t, l, i, s) => "OnRampStep("@ + opt_turn_form(t) + ", "@
            + opt_lane_form(l) + ", "@ + intersection_form(i) + ", "@ + sign_form(s) + ")"@,
        SpecGuidance::OffRampStep(l, e, s) => "OffRampStep("@ + opt_lane_form(l) + ", "@ + match e {
            Some(n) => "Some("@ + named_form("ExitName"@, n) + ")"@,
            None => "None"@,
        } + ", "@ + sign_form(s) + ")"@,
        SpecGuidance::KeepOrForkStep(k, l) => "KeepOrForkStep("@ + side_form(k == KeepSide::Left)
            + ", "@ + opt_lane_form(l) + ")"@,
        SpecGuidance::MergeStep(l) => "MergeStep("@ + opt_lane_form(l) + ")"@,
        SpecGuidance::InterchangeStep(l, n, s) => "InterchangeStep("@ + opt_lane_form(l) + ", "@
            + named_form("InterchangeName"@, n) + ", "@ + sign_form(s) + ")"@,
        SpecGuidance::DestinationStepPrepare(d) => "DestinationStepPrepare("@ + match d {
            Some(x) => "Some("@ + side_form(x == DestinationSide::Left) + ")"@,
            None => "None"@,
        } + ")"@,
        SpecGuidance::DestinationStepAct => "DestinationStepAct"@,
        _ => Seq::empty(),
    }
}

/// The form of a guidance event.
pub open spec fn guidance_form(g: SpecGuidance) -> Seq<SpecPiece>
    decreases g,
{
    match g {
        SpecGuidance::ContinueForDistance(d) => txt("ContinueForDistance("@) + distance_form(d)
            + txt(")"@),
        SpecGuidance::PrepareDistanceMessage(d, inner) => txt("PrepareDistanceMessage("@)
            + distance_form(d) + txt(", "@) + guidance_form(*inner) + txt(")"@),
        SpecGuidance::CombineMergedGuidanceEvents(a, b) => txt("CombineMergedGuidanceEvents("@)
            + guidance_form(*a) + txt(", "@) + guidance_form(*b) + txt(")"@),
        _ => txt(plain_guidance_form(g)),
    }
}

fn plain_guidance_text(g: &Guidance) -> (r: String)
    requires
        !(g is ContinueForDistance || g is PrepareDistanceMessage || g is CombineMergedGuidanceEvents),
    ensures
        r@ == plain_guidance_form(g@),
{
    let mut r = String::new();
    match g {
        Guidance::StraightStep(l) => {
            r.append("StraightStep(");
            r.append(opt_lane_text(*l).as_str());
        },
        Guidance::TurnStep(t, l, i) => {
            r.append("TurnStep(");
            r.append(turn_text(*t).as_str());
            r.append(", ");
            r.append(opt_lane_text(*l).as_str());
            r.append(", ");
            r.append(intersection_text(i).as_str());
        },
        Guidance::UTurnStep(i) => {
            r.append("UTurnStep(");
            r.append(intersection_text(i).as_str());
        },
        Guidance::OnRampStep(t, l, i, s) => {
            r.append("OnRampStep(");
            r.append(opt_turn_text(*t).as_str());
            r.append(", ");
            r.append(opt_lane_text(*l).as_str());
            r.append(", ");
            r.append(intersection_text(i).as_str());
            r.append(", ");
            r.append(sign_text(s).as_str());
        },
        Guidance::OffRampStep(l, e, s) => {
            r.append("OffRampStep(");
            r.append(opt_lane_text(*l).as_str());
            r.append(", ");
            match e {
                Some(n) => {
                    r.append("Some(");
                    r.append(named_text("ExitName", &n.name).as_str());
                    r.append(")");
                },
                None => r.append("None"),
            }
            r.append(", ");
            r.append(sign_text(s).as_str());
        },
        Guidance::KeepOrForkStep(k, l) => {
            r.append("KeepOrForkStep(");
            r.append(side_text(*k == KeepSide::Left));
            r.append(", ");
            r.append(opt_lane_text(*l).as_str());
        },
        Guidance::MergeStep(l) => {
            r.append("MergeStep(");
            r.append(opt_lane_text(*l).as_str());
        },
        Guidance::InterchangeStep(l, n, s) => {
            r.append("InterchangeStep(");
            r.append(opt_lane_text(*l).as_str());
            r.append(", ");
            r.append(named_text("InterchangeName", &n.name).as_str());
            r.append(", ");
            r.append(sign_text(s).as_str());
        },
        Guidance::DestinationStepPrepare(d) => {
            r.append("DestinationStepPrepare(");
            match d {
                Some(x) => {
                    r.append("Some(");
                    r.append(side_text(*x == DestinationSide::Left));
                    r.append(")");
                },
                None => r.append("None"),
            }
        },
        _ => {
            return String::from_str("DestinationStepAct");
        },
    }
    r.append(")");
    r
}

fn write_guidance(g: &Guidance, out: &mut Vec<TextPiece>)
    ensures
        pieces_view(final(out)@) == pieces_view(old(out)@) + guidance_form(g@),
    decreases g,
{
    let ghost start = pieces_view(out@);
    match g {
        Guidance::ContinueForDistance(d) => {
            push_str(out, "ContinueForDistance(");
            write_distance(d, out);
            push_str(out, ")");
        },
        Guidance::PrepareDistanceMessage(d, inner) => {
            push_str(out, "PrepareDistanceMessage(");
            write_distance(d, out);
            push_str(out, ", ");
            write_guidance(inner, out);
            push_str(out, ")");
        },
        Guidance::CombineMergedGuidanceEvents(a, b) => {
            push_str(out, "CombineMergedGuidanceEvents(");
            write_guidance(a, out);
            push_str(out, ", ");
            write_guidance(b, out);
            push_str(out, ")");
        },
        _ => {
            push_text(out, plain_guidance_text(g));
        },
    }
    assert(pieces_view(out@) =~= start + guidance_form(g@));
}

/// The form of a value that holds no number and no nested value.
pub open spec fn plain_value_form(v: SpecValue) -> Seq<char> {
    match v {
        SpecValue::DistanceUnit(u) => "DistanceUnit("@ + unit_form(u) + ")"@,
        SpecValue::DistanceOverride(s) => "DistanceOverride("@ + debug_quoted(s) + ")"@,
        SpecValue::TurnSharpness(x) => "TurnSharpness("@ + sharpness_form(x) + ")"@,
        SpecValue::TurnSide(x) => "TurnSide("@ + side_form(x == TurnSide::Left) + ")"@,
        SpecValue::KeepSide(x) => "KeepSide("@ + side_form(x == KeepSide::Left) + ")"@,
        SpecValue::DestinationSide(x) => "DestinationSide("@ + side_form(x == DestinationSide::Left)
            + ")"@,
        SpecValue::LaneGuidance(x) => "LaneGuidance("@ + lane_form(x) + ")"@,
        SpecValue::TrafficLight(t) => "TrafficLight("@ + light_form(t) + ")"@,
        SpecValue::StopSign(t) => "StopSign("@ + stop_form(t) + ")"@,
        SpecValue::ExitName(n) => "ExitName("@ + named_form("ExitName"@, n) + ")"@,
        SpecValue::Exits(ts) => "Exits(Exits { names: "@ + nlg_list_form(ts) + " })"@,
        SpecValue::Key(e) => "Key("@ + enum_form(e) + ")"@,
        SpecValue::SignDirectName(s) => "SignDirectName("@ + debug_quoted(s) + ")"@,
        SpecValue::SignIndirectName(s) => "SignIndirectName("@ + debug_quoted(s) + ")"@,
        SpecValue::Routes(ts) => "Routes(Routes { names: "@ + nlg_list_form(ts) + " })"@,
        SpecValue::IntersectionName(s) => "IntersectionName("@ + debug_quoted(s) + ")"@,
        SpecValue::InterchangeName(n) => "InterchangeName("@ + named_form("InterchangeName"@, n)
            + ")"@,
        SpecValue::NLGData(t) => "NLGData(NLGData { text: "@ + debug_quoted(t) + " })"@,
        _ => Seq::empty(),
    }
}

/// The form of a value.
pub open spec fn value_form(v: SpecValue) -> Seq<SpecPiece>
    decreases v,
{
    match v {
        SpecValue::Distance(b) => txt("Distance("@) + seq![SpecPiece::Number(b)] + txt(")"@),
        SpecValue::Maneuver(g) => txt("Maneuver("@) + guidance_form(g) + txt(")"@),
        SpecValue::FirstStep(g) => txt("FirstStep("@) + guidance_form(g) + txt(")"@),
        SpecValue::SecondStep(g) => txt("SecondStep("@) + guidance_form(g) + txt(")"@),
        SpecValue::Args(vs) => txt("Args(["@) + items_form(vs) + txt("])"@),
        _ => txt(plain_value_form(v)),
    }
}

/// The forms of `vs`, separated by `, `.
pub open spec fn items_form(vs: Seq<SpecValue>) -> Seq<SpecPiece>
    decreases vs,
{
    if vs.len() == 0 {
        Seq::empty()
    } else {
        items_form(vs.subrange(0, vs.len() - 1)) + (if vs.len() > 1 {
            txt(", "@)
        } else {
            Seq::empty()
        }) + value_form(vs[vs.len() - 1])
    }
}

/// The form of a list of values: `[a, b, ...]`.
pub open spec fn list_form(vs: Seq<SpecValue>) -> Seq<SpecPiece> {
    txt("["@) + items_form(vs) + txt("]"@)
}

fn plain_value_text(v: &Value) -> (r: String)
    requires
        !(v is Distance || v is Maneuver || v is FirstStep || v is SecondStep || v is Args),
    ensures
        r@ == plain_value_form(v@),
{
    let mut r = String::new();
    match v {
        Value::DistanceUnit(u) => {
            r.append("DistanceUnit(");
            r.append(unit_text(*u));
            r.append(")");
            assert(r@ =~= plain_value_form(v@));
            return r;
        },
        Value::DistanceOverride(s) => {
            r.append("DistanceOverride(");
            r.append(debug_text(s.as_str()).as_str());
            r.append(")");
            assert(r@ =~= plain_value_form(v@));
            return r;
        },
        Value::TurnSharpness(x) => {
            r.append("TurnSharpness(");
            r.append(sharpness_text(*x));
            r.append(")");
            assert(r@ =~= plain_value_form(v@));
            return r;
        },
        Value::TurnSide(x) => {
            r.append("TurnSide(");
            r.append(side_text(*x == TurnSide::Left));
            r.append(")");
            assert(r@ =~= plain_value_form(v@));
            return r;
        },
        Value::KeepSide(x) => {
            r.append("KeepSide(");
            r.append(side_text(*x == KeepSide::Left));
            r.append(")");
            assert(r@ =~= plain_value_form(v@));
            return r;
        },
        Value::DestinationSide(x) => {
            r.append("DestinationSide(");
            r.append(side_text(*x == DestinationSide::Left));
            r.append(")");
            assert(r@ =~= plain_value_form(v@));
            return r;
        },
        Value::LaneGuidance(x) => {
            r.append("LaneGuidance(");
            r.append(lane_text(*x));
            r.append(")");
            assert(r@ =~= plain_value_form(v@));
            return r;
        },
        Value::TrafficLight(t) => {
            r.append("TrafficLight(");
            r.append(light_text(*t).as_str());
            r.append(")");
            assert(r@ =~= plain_value_form(v@));
            return r;
        },
        Value::StopSign(t) => {
            r.append("StopSign(");
            r.append(stop_text(*t).as_str());
            r.append(")");
            assert(r@ =~= plain_value_form(v@));
            return r;
        },
        Value::ExitName(n) => {
            r.append("ExitName(");
            r.append(named_text("ExitName", &n.name).as_str());
            r.append(")");
            assert(r@ =~= plain_value_form(v@));
            return r;
        },
        Value::Exits(e) => {
            r.append("Exits(Exits { names: ");
            r.append(nlg_list_text(&e.names).as_str());
            r.append(" })");
            assert(r@ =~= plain_value_form(v@));
            return r;
        },
        Value::Key(e) => {
            r.append("Key(");
            r.append(enum_text(e).as_str());
            r.append(")");
            assert(r@ =~= plain_value_form(v@));
            return r;
        },
        Value::SignDirectName(s) => {
            r.append("SignDirectName(");
            r.append(debug_text(s.as_str()).as_str());
            r.append(")");
            assert(r@ =~= plain_value_form(v@));
            return r;
        },
        Value::SignIndirectName(s) => {
            r.append("SignIndirectName(");
            r.append(debug_text(s.as_str()).as_str());
            r.append(")");
            assert(r@ =~= plain_value_form(v@));
            return r;
        },
        Value::Routes(e) => {
            r.append("Routes(Routes { names: ");
            r.append(nlg_list_text(&e.names).as_str());
            r.append(" })");
            assert(r@ =~= plain_value_form(v@));
            return r;
        },
        Value::IntersectionName(s) => {
            r.append("IntersectionName(");
            r.append(debug_text(s.as_str()).as_str());
            r.append(")");
            assert(r@ =~= plain_value_form(v@));
            return r;
        },
        Value::InterchangeName(n) => {
            r.append("InterchangeName(");
            r.append(named_text("InterchangeName", &n.name).as_str());
            r.append(")");
            assert(r@ =~= plain_value_form(v@));
            return r;
        },
        Value::NLGData(d) => {
            r.append("NLGData(NLGData { text: ");
            r.append(debug_text(d.text.as_str()).as_str());
            r.append(" })");
            assert(r@ =~= plain_value_form(v@));
            return r;
        },
        _ => {},
    }
    r
}

pub(crate) fn write_value(v: &Value, out: &mut Vec<TextPiece>)
    ensures
        pieces_view(final(out)@) == pieces_view(old(out)@) + value_form(v@),
    decreases v, 1int,
{
    let ghost start = pieces_view(out@);
    match v {
        Value::Distance(b) => {
            push_str(out, "Distance(");
            push_number(out, *b);
            push_str(out, ")");
        },
        Value::Maneuver(g) => {
            push_str(out, "Maneuver(");
            write_guidance(g, out);
            push_str(out, ")");
        },
        Value::FirstStep(g) => {
            push_str(out, "FirstStep(");
            write_guidance(g, out);
            push_str(out, ")");
        },
        Value::SecondStep(g) => {
            push_str(out, "SecondStep(");
            write_guidance(g, out);
            push_str(out, ")");
        },
        Value::Args(vs) => {
            push_str(out, "Args([");
            assert(decreases_to!(*v => v->Args_0));
            write_items(vs, out);
            push_str(out, "])");
        },
        _ => {
            push_text(out, plain_value_text(v));
        },
    }
    assert(pieces_view(out@) =~= start + value_form(v@));
}

fn write_items(vs: &Vec<Value>, out: &mut Vec<TextPiece>)
    ensures
        pieces_view(final(out)@) == pieces_view(old(out)@) + items_form(values_model(vs@)),
    decreases vs, 0int,
{
    let ghost start = pieces_view(out@);
    let ghost m = values_model(vs@);
    proof {
        crate::pathfinder4::lemma_values_model(vs@);
    }
    let n = vs.len();
    let mut i: usize = 0;
    assert(m.take(0) =~= Seq::<SpecValue>::empty());
    while i < n
        invariant
            n == vs@.len(),
            m == values_model(vs@),
            m.len() == n,
            forall|j: int| 0 <= j < n ==> #[trigger] m[j] == vs@[j]@,
            i <= n,
            pieces_view(out@) == start + items_form(m.take(i as int)),
        decreases n - i,
    {
        let ghost before = pieces_view(out@);
        if i > 0 {
            push_str(out, ", ");
        }
        assert(decreases_to!(*vs => vs@));
        assert(decreases_to!(vs@ => vs@[i as int]));
        write_value(&vs[i], out);
        proof {
            let t = m.take(i + 1);
            assert(t.subrange(0, i as int) =~= m.take(i as int));
            assert(t[i as int] == vs@[i as int]@);
            assert(pieces_view(out@) =~= start + items_form(t));
        }
        i += 1;
    }
    assert(m.take(n as int) =~= m);
}

pub(crate) fn write_list(vs: &Vec<Value>, out: &mut Vec<TextPiece>)
    ensures
        pieces_view(final(out)@) == pieces_view(old(out)@) + list_form(values_model(vs@)),
{
    let ghost start = pieces_view(out@);
    push_str(out, "[");
    write_items(vs, out);
    push_str(out, "]");
    assert(pieces_view(out@) =~= start + list_form(values_model(vs@)));
}

/// The form of a raw value.
pub open spec fn raw_form(r: SpecRawValue) -> Seq<SpecPiece> {
    match r {
        SpecRawValue::IntValue(i) => txt("IntValue("@ + i64_form(i) + ")"@),
        SpecRawValue::SymbolValue(s) => txt("SymbolValue("@ + debug_quoted(s) + ")"@),
        SpecRawValue::FloatValue(b) => txt("FloatValue("@) + seq![SpecPiece::Number(b)] + txt(")"@),
        SpecRawValue::EnumValue(e) => txt("EnumValue("@ + enum_form(e) + ")"@),
        SpecRawValue::CommandValue(e) => txt("CommandValue("@ + enum_form(e) + ")"@),
        SpecRawValue::NLGData(d) => txt(
            "NLGData(PF4NLGData { id: "@ + opt_quoted_form(d.id) + ", text: "@ + debug_quoted(d.text)
                + " })"@,
        ),
        SpecRawValue::KeyValueArray(vs) => txt("KeyValueArray("@) + list_form(vs) + txt(")"@),
    }
}

pub(crate) fn write_raw(r: &PF4RawValue, out: &mut Vec<TextPiece>)
    ensures
        pieces_view(final(out)@) == pieces_view(old(out)@) + raw_form(r@),
{
    let ghost start = pieces_view(out@);
    match r {
        PF4RawValue::IntValue(i) => {
            let mut t = String::from_str("IntValue(");
            t.append(i64_text(*i).as_str());
            t.append(")");
            push_text(out, t);
        },
        PF4RawValue::SymbolValue(s) => {
            let mut t = String::from_str("SymbolValue(");
            t.append(debug_text(s.as_str()).as_str());
            t.append(")");
            push_text(out, t);
        },
        PF4RawValue::FloatValue(b) => {
            push_str(out, "FloatValue(");
            push_number(out, *b);
            push_str(out, ")");
        },
        PF4RawValue::EnumValue(e) => {
            let mut t = String::from_str("EnumValue(");
            t.append(enum_text(e).as_str());
            t.append(")");
            push_text(out, t);
        },
        PF4RawValue::CommandValue(e) => {
            let mut t = String::from_str("CommandValue(");
            t.append(enum_text(e).as_str());
            t.append(")");
            push_text(out, t);
        },
        PF4RawValue::NLGData(d) => {
            let mut t = String::from_str("NLGData(PF4NLGData { id: ");
            t.append(opt_quoted_text(&d.id).as_str());
            t.append(", text: ");
            t.append(debug_text(d.text.as_str()).as_str());
            t.append(" })");
            push_text(out, t);
        },
        PF4RawValue::KeyValueArray(vs) => {
            push_str(out, "KeyValueArray(");
            write_list(vs, out);
            push_str(out, ")");
        },
    }
    assert(pieces_view(out@) =~= start + raw_form(r@));
}

} // verus!

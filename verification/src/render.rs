//! The default Japanese wording of a guidance event.
//!
//! A distance is a binary64 number; the wording leaves a slot for it
//! ([`TextPiece::Number`]) that the caller fills with the number's text.
use crate::guidance::{
    DestinationSide, DistanceUnit, Guidance, Intersection, KeepSide, LaneGuidance, SignName,
    SpecDistance, SpecGuidance, SpecIntersection, SpecSignName, Turn, TurnSharpness, TurnSide,
};
use crate::text::{replace, replace_all};
use vstd::prelude::*;

verus! {

/// A piece of rendered guidance: text, or the slot of a distance's number
/// (the little-endian bytes of the binary64 value).
#[derive(Debug, PartialEq)]
pub enum TextPiece {
    Text(String),
    Number([u8; 8]),
}

pub enum SpecPiece {
    Text(Seq<char>),
    Number([u8; 8]),
}

impl View for TextPiece {
    type V = SpecPiece;

    open spec fn view(&self) -> SpecPiece {
        match self {
            TextPiece::Text(s) => SpecPiece::Text(s@),
            TextPiece::Number(b) => SpecPiece::Number(*b),
        }
    }
}

pub open spec fn pieces_view(p: Seq<TextPiece>) -> Seq<SpecPiece> {
    p.map_values(|x: TextPiece| x@)
}

pub open spec fn unit_text(u: DistanceUnit) -> Seq<char> {
    match u {
        DistanceUnit::Meter => "メートル"@,
        DistanceUnit::Kilometer => "キロ"@,
        DistanceUnit::Mile => "マイル"@,
    }
}

pub open spec fn lane_text(l: LaneGuidance) -> Seq<char> {
    match l {
        LaneGuidance::LeftLane => "左車線"@,
        LaneGuidance::Left2Lanes => "左側2車線"@,
        LaneGuidance::RightLane => "右車線"@,
        LaneGuidance::Right2Lanes => "右側2車線"@,
        LaneGuidance::MiddleLane => "真ん中の車線"@,
        LaneGuidance::SecondFromRight => "右から2番目の車線"@,
        LaneGuidance::AnyLane => "任意の車線"@,
    }
}

/// The lane's text followed by `postfix`; nothing without a lane.
pub open spec fn opt_lane_text(l: Option<LaneGuidance>, postfix: Seq<char>) -> Seq<char> {
    match l {
        Some(x) => lane_text(x) + postfix,
        None => Seq::empty(),
    }
}

/// The intersection's text followed by `postfix`: a stop sign before a
/// traffic light before a name (with `（交差点）` shortened to `交差点`); nothing
/// for an intersection without any of them.
pub open spec fn intersection_text(i: SpecIntersection, postfix: Seq<char>) -> Seq<char> {
    if let Some(stop) = i.stop_sign {
        (if stop.index == -1 {
            "一時停止の標識"@
        } else {
            "ずっと先の一時停止の標識"@
        }) + postfix
    } else if let Some(light) = i.traffic_light {
        (if light.index == -1 {
            "信号"@
        } else {
            "ずっと先の信号"@
        }) + postfix
    } else if let Some(name) = i.name {
        replace(name, "（交差点）"@, "交差点"@) + postfix
    } else {
        Seq::empty()
    }
}

pub open spec fn turn_text(t: Turn) -> Seq<char> {
    match (t.sharpness, t.side) {
        (TurnSharpness::Normal, TurnSide::Left) => "左方向"@,
        (TurnSharpness::Normal, TurnSide::Right) => "右方向"@,
        (TurnSharpness::Slight, TurnSide::Left) => "斜め左方向"@,
        (TurnSharpness::Slight, TurnSide::Right) => "斜め右方向"@,
        (TurnSharpness::Sharp, TurnSide::Left) => "左手前方向"@,
        (TurnSharpness::Sharp, TurnSide::Right) => "右手前方向"@,
    }
}

pub open spec fn opt_turn_text(t: Option<Turn>, postfix: Seq<char>) -> Seq<char> {
    match t {
        Some(x) => turn_text(x) + postfix,
        None => Seq::empty(),
    }
}

/// The sign's text followed by `postfix`: the indirect name with `方面`, then
/// the direct name; nothing for a sign without names.
pub open spec fn sign_text(s: SpecSignName, postfix: Seq<char>) -> Seq<char> {
    match (s.indirect, s.direct) {
        (Some(i), Some(d)) => i + "方面"@ + d + postfix,
        (Some(i), None) => i + "方面"@ + postfix,
        (None, Some(d)) => d + postfix,
        (None, None) => Seq::empty(),
    }
}

/// The wording of a guidance event.
pub open spec fn render(g: SpecGuidance) -> Seq<SpecPiece>
    decreases g,
{
    proof {
        reveal_strlit("");
    }
    match g {
        SpecGuidance::StraightStep(l) => seq![
            SpecPiece::Text(opt_lane_text(l, "を"@) + "直進します。"@),
        ],
        SpecGuidance::TurnStep(t, l, i) => seq![
            SpecPiece::Text(
                opt_lane_text(l, "を使用して"@) + intersection_text(i, "で"@) + turn_text(t)
                    + "です"@ + "。"@,
            ),
        ],
        SpecGuidance::UTurnStep(i) => seq![
            SpecPiece::Text(
                match i.name {
                    Some(n) => n + "で、"@,
                    None => Seq::empty(),
                } + "Uターンします。"@,
            ),
        ],
        SpecGuidance::OnRampStep(t, l, i, s) => seq![
            SpecPiece::Text(
                opt_lane_text(l, "を使用して"@) + intersection_text(i, "で"@) + opt_turn_text(
                    t,
                    "に進み"@,
                ) + sign_text(s, "の"@) + "ランプに進みます。"@,
            ),
        ],
        SpecGuidance::OffRampStep(l, e, s) => seq![
            SpecPiece::Text(
                replace(
                    opt_lane_text(l, "を使用して"@) + sign_text(s, Seq::empty()) + match e {
                        Some(n) => n + "の"@,
                        None => Seq::empty(),
                    } + "出口を出ます。"@,
                    "インターチェンジの出口"@,
                    "出口"@,
                ),
            ),
        ],
        SpecGuidance::KeepOrForkStep(k, l) => seq![
            SpecPiece::Text(
                opt_lane_text(l, "を使用して"@) + match k {
                    KeepSide::Left => "左側を"@,
                    KeepSide::Right => "右側を"@,
                } + "進みます。"@,
            ),
        ],
        SpecGuidance::MergeStep(l) => seq![
            SpecPiece::Text(opt_lane_text(l, "を進み"@) + "合流します。"@),
        ],
        SpecGuidance::DestinationStepPrepare(side) => seq![
            SpecPiece::Text(
                match side {
                    Some(DestinationSide::Left) => "目的地は左側です。"@,
                    Some(DestinationSide::Right) => "目的地は右側です。"@,
                    None => "まもなく目的地です。"@,
                },
            ),
        ],
        SpecGuidance::InterchangeStep(l, n, s) => seq![
            SpecPiece::Text(
                opt_lane_text(l, "を使用して"@) + n + "で"@ + sign_text(s, Seq::empty())
                    + "へ進みます。"@,
            ),
        ],
        SpecGuidance::DestinationStepAct => seq![SpecPiece::Text("目的地に到着しました"@)],
        SpecGuidance::ContinueForDistance(d) => seq![
            SpecPiece::Text("およそ"@),
            SpecPiece::Number(d.value_bytes),
            SpecPiece::Text(unit_text(d.unit) + "道なりです。"@),
        ],
        SpecGuidance::PrepareDistanceMessage(d, inner) => seq![
            SpecPiece::Text("およそ"@),
            SpecPiece::Number(d.value_bytes),
            SpecPiece::Text(unit_text(d.unit) + "先、"@),
        ] + render(*inner),
        SpecGuidance::CombineMergedGuidanceEvents(first, second) => render(*first) + seq![
            SpecPiece::Text("続いて、"@),
        ] + render(*second),
    }
}

pub fn render_distance_unit(unit: DistanceUnit) -> (r: &'static str)
    ensures
        r@ == unit_text(unit),
{
    match unit {
        DistanceUnit::Meter => "メートル",
        DistanceUnit::Kilometer => "キロ",
        DistanceUnit::Mile => "マイル",
    }
}

fn render_lane(lane: LaneGuidance) -> (r: &'static str)
    ensures
        r@ == lane_text(lane),
{
    match lane {
        LaneGuidance::LeftLane => "左車線",
        LaneGuidance::Left2Lanes => "左側2車線",
        LaneGuidance::RightLane => "右車線",
        LaneGuidance::Right2Lanes => "右側2車線",
        LaneGuidance::MiddleLane => "真ん中の車線",
        LaneGuidance::SecondFromRight => "右から2番目の車線",
        LaneGuidance::AnyLane => "任意の車線",
    }
}

fn render_opt_lane(opt_lane: &Option<LaneGuidance>, postfix: &str) -> (r: String)
    ensures
        r@ == opt_lane_text(*opt_lane, postfix@),
{
    let mut out = String::new();
    if let Some(lane) = opt_lane {
        out.append(render_lane(*lane));
        out.append(postfix);
    }
    out
}

fn render_intersection(intersection: &Intersection, postfix: &str) -> (r: String)
    ensures
        r@ == intersection_text(intersection@, postfix@),
{
    let mut out = String::new();
    if let Some(stop) = &intersection.stop_sign {
        out.append(
            if stop.index == -1 {
                "一時停止の標識"
            } else {
                "ずっと先の一時停止の標識"
            },
        );
    } else if let Some(light) = &intersection.traffic_light {
        out.append(
            if light.index == -1 {
                "信号"
            } else {
                "ずっと先の信号"
            },
        );
    } else if let Some(name) = &intersection.name {
        proof {
            reveal_strlit("（交差点）");
        }
        out = replace_all(name.as_str(), "（交差点）", "交差点");
    } else {
        return out;
    }
    out.append(postfix);
    out
}

fn render_turn(turn: &Turn) -> (r: &'static str)
    ensures
        r@ == turn_text(*turn),
{
    match (turn.sharpness, turn.side) {
        (TurnSharpness::Normal, TurnSide::Left) => "左方向",
        (TurnSharpness::Normal, TurnSide::Right) => "右方向",
        (TurnSharpness::Slight, TurnSide::Left) => "斜め左方向",
        (TurnSharpness::Slight, TurnSide::Right) => "斜め右方向",
        (TurnSharpness::Sharp, TurnSide::Left) => "左手前方向",
        (TurnSharpness::Sharp, TurnSide::Right) => "右手前方向",
    }
}

fn render_sign(sign: &SignName, postfix: &str) -> (r: String)
    ensures
        r@ == sign_text(sign@, postfix@),
{
    let mut out = String::new();
    match (&sign.indirect, &sign.direct) {
        (Some(indirect), Some(direct)) => {
            out.append(indirect.as_str());
            out.append("方面");
            out.append(direct.as_str());
            out.append(postfix);
        },
        (Some(indirect), None) => {
            out.append(indirect.as_str());
            out.append("方面");
            out.append(postfix);
        },
        (None, Some(direct)) => {
            out.append(direct.as_str());
            out.append(postfix);
        },
        (None, None) => {},
    }
    out
}

fn text_piece(s: String) -> (r: Vec<TextPiece>)
    ensures
        pieces_view(r@) == seq![SpecPiece::Text(s@)],
{
    let mut v = Vec::new();
    v.push(TextPiece::Text(s));
    assert(pieces_view(v@) =~= seq![SpecPiece::Text(s@)]);
    v
}

fn distance_pieces(value_bytes: [u8; 8], unit: DistanceUnit, tail: &str) -> (r: Vec<TextPiece>)
    ensures
        pieces_view(r@) == seq![
            SpecPiece::Text("およそ"@),
            SpecPiece::Number(value_bytes),
            SpecPiece::Text(unit_text(unit) + tail@),
        ],
{
    let mut v = Vec::new();
    v.push(TextPiece::Text(String::from_str("およそ")));
    v.push(TextPiece::Number(value_bytes));
    let mut last = String::from_str(render_distance_unit(unit));
    last.append(tail);
    v.push(TextPiece::Text(last));
    assert(pieces_view(v@) =~= seq![
        SpecPiece::Text("およそ"@),
        SpecPiece::Number(value_bytes),
        SpecPiece::Text(unit_text(unit) + tail@),
    ]);
    v
}

/// The default wording of guidance `g`; it is never refused.
pub fn default_render_guidance(g: &Guidance) -> (r: Result<Vec<TextPiece>, String>)
    ensures
        r matches Ok(p) && pieces_view(p@) == render(g@),
    decreases g,
{
    proof {
        reveal_strlit("");
    }
    match g {
        Guidance::StraightStep(opt_lane) => {
            let mut s = render_opt_lane(opt_lane, "を");
            s.append("直進します。");
            Ok(text_piece(s))
        },
        Guidance::TurnStep(turn, opt_lane, intersection) => {
            let mut s = render_opt_lane(opt_lane, "を使用して");
            s.append(render_intersection(intersection, "で").as_str());
            s.append(render_turn(turn));
            s.append("です");
            s.append("。");
            Ok(text_piece(s))
        },
        Guidance::UTurnStep(intersection) => {
            let mut s = String::new();
            if let Some(name) = &intersection.name {
                s.append(name.as_str());
                s.append("で、");
                assert(s@ =~= name@ + "で、"@);
            } else {
                assert(s@ =~= Seq::<char>::empty());
            }
            s.append("Uターンします。");
            Ok(text_piece(s))
        },
        Guidance::OnRampStep(opt_turn, opt_lane, intersection, sign) => {
            let mut s = render_opt_lane(opt_lane, "を使用して");
            s.append(render_intersection(intersection, "で").as_str());
            let ghost before = s@;
            if let Some(turn) = opt_turn {
                s.append(render_turn(turn));
                s.append("に進み");
            }
            assert(s@ =~= before + opt_turn_text(*opt_turn, "に進み"@));
            s.append(render_sign(sign, "の").as_str());
            s.append("ランプに進みます。");
            Ok(text_piece(s))
        },
        Guidance::OffRampStep(opt_lane, e_name, sign) => {
            let mut s = render_opt_lane(opt_lane, "を使用して");
            s.append(render_sign(sign, "").as_str());
            let ghost before = s@;
            if let Some(name) = e_name {
                s.append(name.name.as_str());
                s.append("の");
            }
            assert(s@ =~= before + match e_name {
                Some(n) => n.name@ + "の"@,
                None => Seq::<char>::empty(),
            });
            s.append("出口を出ます。");
            proof {
                reveal_strlit("インターチェンジの出口");
            }
            Ok(text_piece(replace_all(s.as_str(), "インターチェンジの出口", "出口")))
        },
        Guidance::KeepOrForkStep(keep, opt_lane) => {
            let mut s = render_opt_lane(opt_lane, "を使用して");
            s.append(
                match keep {
                    KeepSide::Left => "左側を",
                    KeepSide::Right => "右側を",
                },
            );
            s.append("進みます。");
            Ok(text_piece(s))
        },
        Guidance::MergeStep(opt_lane) => {
            let mut s = render_opt_lane(opt_lane, "を進み");
            s.append("合流します。");
            Ok(text_piece(s))
        },
        Guidance::DestinationStepPrepare(opt_side) => {
            let s = match opt_side {
                Some(DestinationSide::Left) => "目的地は左側です。",
                Some(DestinationSide::Right) => "目的地は右側です。",
                None => "まもなく目的地です。",
            };
            Ok(text_piece(String::from_str(s)))
        },
        Guidance::InterchangeStep(opt_lane, i_name, sign) => {
            let mut s = render_opt_lane(opt_lane, "を使用して");
            s.append(i_name.name.as_str());
            s.append("で");
            s.append(render_sign(sign, "").as_str());
            s.append("へ進みます。");
            Ok(text_piece(s))
        },
        Guidance::DestinationStepAct => Ok(text_piece(String::from_str("目的地に到着しました"))),
        Guidance::ContinueForDistance(dist) => Ok(
            distance_pieces(dist.value_bytes, dist.unit, "道なりです。"),
        ),
        Guidance::PrepareDistanceMessage(dist, guidance) => {
            let mut v = distance_pieces(dist.value_bytes, dist.unit, "先、");
            let mut rest = match default_render_guidance(guidance) {
                Ok(p) => p,
                Err(e) => return Err(e),
            };
            let ghost a = v@;
            let ghost b = rest@;
            v.append(&mut rest);
            assert(pieces_view(v@) =~= pieces_view(a) + pieces_view(b));
            Ok(v)
        },
        Guidance::CombineMergedGuidanceEvents(first, second) => {
            let mut v = match default_render_guidance(first) {
                Ok(p) => p,
                Err(e) => return Err(e),
            };
            let mut mid = text_piece(String::from_str("続いて、"));
            let mut rest = match default_render_guidance(second) {
                Ok(p) => p,
                Err(e) => return Err(e),
            };
            let ghost a = v@;
            let ghost b = mid@;
            let ghost c = rest@;
            v.append(&mut mid);
            v.append(&mut rest);
            assert(pieces_view(v@) =~= pieces_view(a) + pieces_view(b) + pieces_view(c));
            Ok(v)
        },
    }
}

/// The text of `pieces` with their number slots filled, in order, by
/// `numbers`; nothing when there are not exactly as many numbers as slots.
pub open spec fn fill(pieces: Seq<SpecPiece>, numbers: Seq<Seq<char>>) -> Option<Seq<char>>
    decreases pieces.len(),
{
    if pieces.len() == 0 {
        if numbers.len() == 0 {
            Some(Seq::empty())
        } else {
            None
        }
    } else {
        match pieces[0] {
            SpecPiece::Text(t) => match fill(pieces.drop_first(), numbers) {
                Some(rest) => Some(t + rest),
                None => None,
            },
            SpecPiece::Number(_) => if numbers.len() == 0 {
                None
            } else {
                match fill(pieces.drop_first(), numbers.drop_first()) {
                    Some(rest) => Some(numbers[0] + rest),
                    None => None,
                }
            },
        }
    }
}

pub open spec fn strings_view(v: Seq<String>) -> Seq<Seq<char>> {
    v.map_values(|s: String| s@)
}

/// Fills the number slots of `pieces` with `number_texts`, in order.
pub fn fill_numbers(pieces: &Vec<TextPiece>, number_texts: &Vec<String>) -> (r: Option<String>)
    ensures
        match r {
            Some(s) => fill(pieces_view(pieces@), strings_view(number_texts@)) == Some(s@),
            None => fill(pieces_view(pieces@), strings_view(number_texts@)) is None,
        },
{
    let ghost ps = pieces_view(pieces@);
    let ghost ns = strings_view(number_texts@);
    let n = pieces.len();
    let m = number_texts.len();
    let mut out = String::new();
    let mut i: usize = 0;
    let mut k: usize = 0;
    assert(ps.skip(0) =~= ps);
    assert(ns.skip(0) =~= ns);
    assert(out@ + Seq::<char>::empty() =~= out@);
    while i < n
        invariant
            n == pieces@.len(),
            m == number_texts@.len(),
            ps == pieces_view(pieces@),
            ns == strings_view(number_texts@),
            i <= n,
            k <= m,
            fill(ps, ns) == match fill(ps.skip(i as int), ns.skip(k as int)) {
                Some(rest) => Some(out@ + rest),
                None => None,
            },
        decreases n - i,
    {
        assert(ps.skip(i as int).drop_first() =~= ps.skip(i + 1));
        assert(ps.skip(i as int)[0] == pieces@[i as int]@);
        let ghost prev = out@;
        match &pieces[i] {
            TextPiece::Text(t) => {
                out.append(t.as_str());
                assert forall|rest: Seq<char>| prev + (t@ + rest) == out@ + rest by {
                    assert(prev + (t@ + rest) =~= out@ + rest);
                }
            },
            TextPiece::Number(_) => {
                if k == m {
                    return None;
                }
                assert(ns.skip(k as int).drop_first() =~= ns.skip(k + 1));
                assert(ns.skip(k as int)[0] == number_texts@[k as int]@);
                out.append(number_texts[k].as_str());
                assert forall|rest: Seq<char>| prev + (number_texts@[k as int]@ + rest) == out@ + rest by {
                    assert(prev + (number_texts@[k as int]@ + rest) =~= out@ + rest);
                }
                k += 1;
            },
        }
        i += 1;
    }
    if k < m {
        return None;
    }
    assert(out@ + Seq::<char>::empty() =~= out@);
    Some(out)
}

// ---------------------------------------------------------------------------
// Laws
// ---------------------------------------------------------------------------

/// The number of number slots among `pieces`.
pub open spec fn slot_count(pieces: Seq<SpecPiece>) -> nat
    decreases pieces.len(),
{
    if pieces.len() == 0 {
        0
    } else {
        slot_count(pieces.drop_first()) + if pieces[0] is Number {
            1nat
        } else {
            0nat
        }
    }
}

/// The number of distances in guidance `g`, nested guidance included.
pub open spec fn distance_count(g: SpecGuidance) -> nat
    decreases g,
{
    match g {
        SpecGuidance::ContinueForDistance(_) => 1,
        SpecGuidance::PrepareDistanceMessage(_, inner) => 1 + distance_count(*inner),
        SpecGuidance::CombineMergedGuidanceEvents(a, b) => distance_count(*a) + distance_count(*b),
        _ => 0,
    }
}

proof fn lemma_slot_count_append(a: Seq<SpecPiece>, b: Seq<SpecPiece>)
    ensures
        slot_count(a + b) == slot_count(a) + slot_count(b),
    decreases a.len(),
{
    if a.len() > 0 {
        assert((a + b).drop_first() =~= a.drop_first() + b);
        lemma_slot_count_append(a.drop_first(), b);
    } else {
        assert(a + b =~= b);
    }
}

/// Filling the slots of `pieces` succeeds exactly when there are as many
/// numbers as slots.
pub proof fn law_fill_succeeds_iff_counts_match(pieces: Seq<SpecPiece>, numbers: Seq<Seq<char>>)
    ensures
        fill(pieces, numbers) is Some <==> numbers.len() == slot_count(pieces),
    decreases pieces.len(),
{
    if pieces.len() > 0 {
        if pieces[0] is Number {
            if numbers.len() > 0 {
                law_fill_succeeds_iff_counts_match(pieces.drop_first(), numbers.drop_first());
            }
        } else {
            law_fill_succeeds_iff_counts_match(pieces.drop_first(), numbers);
        }
    }
}

/// The wording of a guidance event has one number slot per distance in it.
pub proof fn law_one_slot_per_distance(g: SpecGuidance)
    ensures
        slot_count(render(g)) == distance_count(g),
    decreases g,
{
    reveal_with_fuel(slot_count, 4);
    match g {
        SpecGuidance::PrepareDistanceMessage(d, inner) => {
            law_one_slot_per_distance(*inner);
            let head = seq![
                SpecPiece::Text("およそ"@),
                SpecPiece::Number(d.value_bytes),
                SpecPiece::Text(unit_text(d.unit) + "先、"@),
            ];
            lemma_slot_count_append(head, render(*inner));
        },
        SpecGuidance::CombineMergedGuidanceEvents(a, b) => {
            law_one_slot_per_distance(*a);
            law_one_slot_per_distance(*b);
            let mid = seq![SpecPiece::Text("続いて、"@)];
            lemma_slot_count_append(render(*a), mid);
            lemma_slot_count_append(render(*a) + mid, render(*b));
        },
        _ => {},
    }
}

/// Guidance is always spoken as text once every distance has its number's
/// text: the wording with as many number texts as distances always fills.
pub proof fn law_wording_fills_with_one_number_per_distance(g: SpecGuidance, numbers: Seq<Seq<char>>)
    ensures
        fill(render(g), numbers) is Some <==> numbers.len() == distance_count(g),
{
    law_one_slot_per_distance(g);
    law_fill_succeeds_iff_counts_match(render(g), numbers);
}

/// The distances of a guidance event, in the order in which its wording names
/// them (the little-endian bytes of each binary64 value).
pub open spec fn distances(g: SpecGuidance) -> Seq<[u8; 8]>
    decreases g,
{
    match g {
        SpecGuidance::ContinueForDistance(d) => seq![d.value_bytes],
        SpecGuidance::PrepareDistanceMessage(d, inner) => seq![d.value_bytes] + distances(*inner),
        SpecGuidance::CombineMergedGuidanceEvents(a, b) => distances(*a) + distances(*b),
        _ => Seq::empty(),
    }
}

/// A guidance event has as many distances as its wording has number slots.
pub proof fn lemma_distances_len(g: SpecGuidance)
    ensures
        distances(g).len() == distance_count(g),
    decreases g,
{
    match g {
        SpecGuidance::PrepareDistanceMessage(_, inner) => lemma_distances_len(*inner),
        SpecGuidance::CombineMergedGuidanceEvents(a, b) => {
            lemma_distances_len(*a);
            lemma_distances_len(*b);
        },
        _ => {},
    }
}

/// The distances of `g`, in the order of the number slots of its wording.
pub fn distance_values(g: &Guidance) -> (r: Vec<[u8; 8]>)
    ensures
        r@ == distances(g@),
        r@.len() == distance_count(g@),
    decreases g,
{
    proof {
        lemma_distances_len(g@);
    }
    match g {
        Guidance::ContinueForDistance(d) => {
            let mut v = Vec::new();
            v.push(d.value_bytes);
            assert(v@ =~= distances(g@));
            v
        },
        Guidance::PrepareDistanceMessage(d, inner) => {
            let mut v = Vec::new();
            v.push(d.value_bytes);
            let mut rest = distance_values(inner);
            v.append(&mut rest);
            assert(v@ =~= distances(g@));
            v
        },
        Guidance::CombineMergedGuidanceEvents(a, b) => {
            let mut v = distance_values(a);
            let mut rest = distance_values(b);
            v.append(&mut rest);
            assert(v@ =~= distances(g@));
            v
        },
        _ => {
            let v: Vec<[u8; 8]> = Vec::new();
            assert(v@ =~= distances(g@));
            v
        },
    }
}

// ---------------------------------------------------------------------------
// Laws of the wording
// ---------------------------------------------------------------------------

/// `c` stands nowhere in `s`, for a text of at most ten characters, shown by
/// looking at each of them.
proof fn lemma_absent(s: Seq<char>, c: char)
    requires
        s.len() <= 10,
        s.len() > 0 ==> s[0] != c,
        s.len() > 1 ==> s[1] != c,
        s.len() > 2 ==> s[2] != c,
        s.len() > 3 ==> s[3] != c,
        s.len() > 4 ==> s[4] != c,
        s.len() > 5 ==> s[5] != c,
        s.len() > 6 ==> s[6] != c,
        s.len() > 7 ==> s[7] != c,
        s.len() > 8 ==> s[8] != c,
        s.len() > 9 ==> s[9] != c,
    ensures
        !s.contains(c),
{
    assert forall|i: int| 0 <= i < s.len() implies s[i] != c by {
        if i == 0 {
        } else if i == 1 {
        } else if i == 2 {
        } else if i == 3 {
        } else if i == 4 {
        } else if i == 5 {
        } else if i == 6 {
        } else if i == 7 {
        } else if i == 8 {
        } else {
        }
    }
}

proof fn lemma_contains_append(a: Seq<char>, b: Seq<char>, c: char)
    ensures
        (a + b).contains(c) <==> (a.contains(c) || b.contains(c)),
{
    if (a + b).contains(c) {
        let i = choose|i: int| 0 <= i < (a + b).len() && (a + b)[i] == c;
        if i < a.len() {
            assert(a[i] == c);
        } else {
            assert(b[i - a.len()] == c);
        }
    }
    if a.contains(c) {
        let i = choose|i: int| 0 <= i < a.len() && a[i] == c;
        assert((a + b)[i] == c);
    }
    if b.contains(c) {
        let i = choose|i: int| 0 <= i < b.len() && b[i] == c;
        assert((a + b)[a.len() + i] == c);
    }
}

/// The wording of a turn names its side and its sharpness: `右` exactly for a
/// right turn and `左` exactly for a left one; `斜` (slightly) exactly for a
/// slight turn and `手前` (back) exactly for a sharp one. A slight right turn
/// is `斜め右方向`.
pub proof fn law_turn_wording_names_its_side(t: Turn)
    ensures
        turn_text(t).contains('右') <==> t.side == TurnSide::Right,
        turn_text(t).contains('左') <==> t.side == TurnSide::Left,
        turn_text(t).contains('斜') <==> t.sharpness == TurnSharpness::Slight,
        turn_text(t).contains('前') <==> t.sharpness == TurnSharpness::Sharp,
        t == (Turn { sharpness: TurnSharpness::Slight, side: TurnSide::Right }) ==> turn_text(t)
            == "斜め右方向"@,
{
    reveal_strlit("左方向");
    reveal_strlit("右方向");
    reveal_strlit("斜め左方向");
    reveal_strlit("斜め右方向");
    reveal_strlit("左手前方向");
    reveal_strlit("右手前方向");
    let w = turn_text(t);
    if t.sharpness == TurnSharpness::Normal {
        assert(w.len() == 3);
        if t.side == TurnSide::Left {
            assert(w[0] == '左');
        } else {
            assert(w[0] == '右');
        }
    } else if t.sharpness == TurnSharpness::Slight {
        assert(w.len() == 5 && w[0] == '斜');
        if t.side == TurnSide::Left {
            assert(w[2] == '左');
        } else {
            assert(w[2] == '右');
        }
    } else {
        assert(w.len() == 5 && w[2] == '前');
        if t.side == TurnSide::Left {
            assert(w[0] == '左');
        } else {
            assert(w[0] == '右');
        }
    }
    if t.side == TurnSide::Left {
        lemma_absent(w, '右');
    } else {
        lemma_absent(w, '左');
    }
    if t.sharpness != TurnSharpness::Slight {
        lemma_absent(w, '斜');
    }
    if t.sharpness != TurnSharpness::Sharp {
        lemma_absent(w, '前');
    }
}

/// The wording of a turn step at a plain intersection, without a lane, names
/// the side of the turn: `右` exactly when it turns right, `左` exactly when it
/// turns left.
pub proof fn law_turn_step_wording_names_its_side(t: Turn)
    ensures
        ({
            let w = render(
                SpecGuidance::TurnStep(
                    t,
                    None,
                    SpecIntersection { name: None, traffic_light: None, stop_sign: None },
                ),
            );
            &&& w.len() == 1
            &&& w[0] is Text
            &&& (w[0]->Text_0.contains('右') <==> t.side == TurnSide::Right)
            &&& (w[0]->Text_0.contains('左') <==> t.side == TurnSide::Left)
        }),
{
    reveal_strlit("");
    reveal_strlit("です");
    reveal_strlit("。");
    law_turn_wording_names_its_side(t);
    let tail = "です"@ + "。"@;
    let text = Seq::<char>::empty() + Seq::<char>::empty() + turn_text(t) + "です"@ + "。"@;
    assert(text =~= turn_text(t) + tail);
    assert(tail.len() == 3);
    lemma_absent(tail, '右');
    lemma_absent(tail, '左');
    lemma_contains_append(turn_text(t), tail, '右');
    lemma_contains_append(turn_text(t), tail, '左');
}

/// The wording of a lane names its side: a lane on the left has `左` and no
/// `右`, one on the right (the right lanes and the second from the right) has
/// `右` and no `左`, and the middle or any lane has neither.
pub proof fn law_lane_wording_names_its_side(l: LaneGuidance)
    ensures
        lane_text(l).contains('左') <==> (l == LaneGuidance::LeftLane || l == LaneGuidance::Left2Lanes),
        lane_text(l).contains('右') <==> (l == LaneGuidance::RightLane || l == LaneGuidance::Right2Lanes
            || l == LaneGuidance::SecondFromRight),
        lane_text(l).contains('2') <==> (l == LaneGuidance::Left2Lanes || l
            == LaneGuidance::Right2Lanes || l == LaneGuidance::SecondFromRight),
{
    reveal_strlit("左車線");
    reveal_strlit("左側2車線");
    reveal_strlit("右車線");
    reveal_strlit("右側2車線");
    reveal_strlit("真ん中の車線");
    reveal_strlit("右から2番目の車線");
    reveal_strlit("任意の車線");
    let w = lane_text(l);
    match l {
        LaneGuidance::LeftLane => {
            assert(w.len() == 3 && w[0] == '左');
        },
        LaneGuidance::Left2Lanes => {
            assert(w.len() == 5 && w[0] == '左' && w[2] == '2');
        },
        LaneGuidance::RightLane => {
            assert(w.len() == 3 && w[0] == '右');
        },
        LaneGuidance::Right2Lanes => {
            assert(w.len() == 5 && w[0] == '右' && w[2] == '2');
        },
        LaneGuidance::MiddleLane => {
            assert(w.len() == 6);
        },
        LaneGuidance::SecondFromRight => {
            assert(w.len() == 9 && w[0] == '右' && w[3] == '2');
        },
        LaneGuidance::AnyLane => {
            assert(w.len() == 5);
        },
    }
    if !(l == LaneGuidance::LeftLane || l == LaneGuidance::Left2Lanes) {
        lemma_absent(w, '左');
    }
    if !(l == LaneGuidance::RightLane || l == LaneGuidance::Right2Lanes || l
        == LaneGuidance::SecondFromRight) {
        lemma_absent(w, '右');
    }
    if !(l == LaneGuidance::Left2Lanes || l == LaneGuidance::Right2Lanes || l
        == LaneGuidance::SecondFromRight) {
        lemma_absent(w, '2');
    }
}

/// The wording of a fork step without a lane names the side to keep, and that
/// of a destination step the side of the destination: `左` exactly for the
/// left, `右` exactly for the right, neither when no side is known.
pub proof fn law_keep_and_destination_wording_name_their_side(
    k: KeepSide,
    d: Option<DestinationSide>,
)
    ensures
        ({
            let w = render(SpecGuidance::KeepOrForkStep(k, None))[0]->Text_0;
            &&& (w.contains('左') <==> k == KeepSide::Left)
            &&& (w.contains('右') <==> k == KeepSide::Right)
        }),
        ({
            let w = render(SpecGuidance::DestinationStepPrepare(d))[0]->Text_0;
            &&& (w.contains('左') <==> d == Some(DestinationSide::Left))
            &&& (w.contains('右') <==> d == Some(DestinationSide::Right))
        }),
{
    reveal_strlit("");
    reveal_strlit("左側を");
    reveal_strlit("右側を");
    reveal_strlit("進みます。");
    reveal_strlit("目的地は左側です。");
    reveal_strlit("目的地は右側です。");
    reveal_strlit("まもなく目的地です。");
    let head = if k == KeepSide::Left {
        "左側を"@
    } else {
        "右側を"@
    };
    let w = Seq::<char>::empty() + head + "進みます。"@;
    assert(render(SpecGuidance::KeepOrForkStep(k, None))[0]->Text_0 == w);
    assert(w =~= head + "進みます。"@);
    assert(head.len() == 3);
    if k == KeepSide::Left {
        assert(head[0] == '左');
    } else {
        assert(head[0] == '右');
    }
    if k == KeepSide::Left {
        lemma_absent(head, '右');
    } else {
        lemma_absent(head, '左');
    }
    assert("進みます。"@.len() == 5);
    lemma_absent("進みます。"@, '左');
    lemma_absent("進みます。"@, '右');
    lemma_contains_append(head, "進みます。"@, '左');
    lemma_contains_append(head, "進みます。"@, '右');
    let v = render(SpecGuidance::DestinationStepPrepare(d))[0]->Text_0;
    match d {
        Some(DestinationSide::Left) => {
            assert(v.len() == 9 && v[4] == '左');
        },
        Some(DestinationSide::Right) => {
            assert(v.len() == 9 && v[4] == '右');
        },
        None => {
            assert(v.len() == 10);
        },
    }
    if d != Some(DestinationSide::Left) {
        lemma_absent(v, '左');
    }
    if d != Some(DestinationSide::Right) {
        lemma_absent(v, '右');
    }
}

/// Each unit has its own word: metres `メートル`, kilometres `キロ`, miles
/// `マイル`, so different units are worded differently.
pub proof fn law_units_have_their_own_words(u: DistanceUnit, v: DistanceUnit)
    ensures
        unit_text(u).contains('メ') <==> u == DistanceUnit::Meter,
        unit_text(u).contains('キ') <==> u == DistanceUnit::Kilometer,
        unit_text(u).contains('イ') <==> u == DistanceUnit::Mile,
        u != v ==> unit_text(u) != unit_text(v),
{
    reveal_strlit("メートル");
    reveal_strlit("キロ");
    reveal_strlit("マイル");
    let w = unit_text(u);
    match u {
        DistanceUnit::Meter => {
            assert(w.len() == 4 && w[0] == 'メ');
        },
        DistanceUnit::Kilometer => {
            assert(w.len() == 2 && w[0] == 'キ');
        },
        DistanceUnit::Mile => {
            assert(w.len() == 3 && w[1] == 'イ');
        },
    }
    if u != DistanceUnit::Meter {
        lemma_absent(w, 'メ');
    }
    if u != DistanceUnit::Kilometer {
        lemma_absent(w, 'キ');
    }
    if u != DistanceUnit::Mile {
        lemma_absent(w, 'イ');
    }
    let x = unit_text(v);
    assert(x.len() == 4 || x.len() == 2 || x.len() == 3);
    if u != v && w == x {
        match v {
            DistanceUnit::Meter => assert(x.len() == 4),
            DistanceUnit::Kilometer => assert(x.len() == 2),
            DistanceUnit::Mile => assert(x.len() == 3),
        }
    }
}

/// The wording of two merged events is the first's wording, then `続いて、`
/// (then), then the second's; that of an event after a distance is `およそ`,
/// the distance's number, its unit with `先、` (ahead), then the event's.
pub proof fn law_wording_keeps_the_order_of_events(a: SpecGuidance, b: SpecGuidance, d: SpecDistance)
    ensures
        ({
            let w = render(SpecGuidance::CombineMergedGuidanceEvents(Box::new(a), Box::new(b)));
            &&& w.len() == render(a).len() + 1 + render(b).len()
            &&& w.take(render(a).len() as int) == render(a)
            &&& w[render(a).len() as int] == SpecPiece::Text("続いて、"@)
            &&& w.skip(render(a).len() + 1int) == render(b)
        }),
        ({
            let w = render(SpecGuidance::PrepareDistanceMessage(d, Box::new(a)));
            &&& w.len() == 3 + render(a).len()
            &&& w[0] == SpecPiece::Text("およそ"@)
            &&& w[1] == SpecPiece::Number(d.value_bytes)
            &&& w[2] == SpecPiece::Text(unit_text(d.unit) + "先、"@)
            &&& w.skip(3) == render(a)
        }),
{
    let w = render(SpecGuidance::CombineMergedGuidanceEvents(Box::new(a), Box::new(b)));
    assert(w.take(render(a).len() as int) =~= render(a));
    assert(w.skip(render(a).len() + 1int) =~= render(b));
    let v = render(SpecGuidance::PrepareDistanceMessage(d, Box::new(a)));
    assert(v.skip(3) =~= render(a));
}

/// The wording of an intersection names what marks it: a stop sign (`停`)
/// before a traffic light (`信`); `ずっと先の` (far ahead) exactly when that
/// mark is not the nearest one (index -1).
pub proof fn law_intersection_wording_names_its_mark(i: SpecIntersection)
    requires
        i.stop_sign is Some || i.traffic_light is Some,
    ensures
        ({
            let w = intersection_text(i, "で"@);
            &&& (w.contains('停') <==> i.stop_sign is Some)
            &&& (w.contains('信') <==> i.stop_sign is None)
            &&& (w.contains('ず') <==> match i.stop_sign {
                Some(s) => s.index != -1,
                None => i.traffic_light->Some_0.index != -1,
            })
        }),
{
    reveal_strlit("一時停止の標識");
    reveal_strlit("ずっと先の一時停止の標識");
    reveal_strlit("信号");
    reveal_strlit("ずっと先の信号");
    reveal_strlit("で");
    let mark = if let Some(stop) = i.stop_sign {
        if stop.index == -1 {
            "一時停止の標識"@
        } else {
            "ずっと先の一時停止の標識"@
        }
    } else if let Some(light) = i.traffic_light {
        if light.index == -1 {
            "信号"@
        } else {
            "ずっと先の信号"@
        }
    } else {
        Seq::empty()
    };
    assert(intersection_text(i, "で"@) == mark + "で"@);
    let far = match i.stop_sign {
        Some(s) => s.index != -1,
        None => i.traffic_light->Some_0.index != -1,
    };
    if i.stop_sign is Some {
        if far {
            assert(mark.len() == 12 && mark[0] == 'ず' && mark[7] == '停');
            lemma_absent(mark.subrange(0, 10), '信');
            lemma_absent(mark.subrange(10, 12), '信');
            assert(mark =~= mark.subrange(0, 10) + mark.subrange(10, 12));
            lemma_contains_append(mark.subrange(0, 10), mark.subrange(10, 12), '信');
        } else {
            assert(mark.len() == 7 && mark[2] == '停');
            lemma_absent(mark, '信');
            lemma_absent(mark, 'ず');
        }
    } else {
        if far {
            assert(mark.len() == 7 && mark[0] == 'ず' && mark[5] == '信');
            lemma_absent(mark, '停');
        } else {
            assert(mark.len() == 2 && mark[0] == '信');
            lemma_absent(mark, '停');
            lemma_absent(mark, 'ず');
        }
    }
    assert("で"@.len() == 1);
    lemma_absent("で"@, '停');
    lemma_absent("で"@, '信');
    lemma_absent("で"@, 'ず');
    lemma_contains_append(mark, "で"@, '停');
    lemma_contains_append(mark, "で"@, '信');
    lemma_contains_append(mark, "で"@, 'ず');
}

/// The distances of the number slots of `pieces`, in order.
pub open spec fn slot_values(pieces: Seq<SpecPiece>) -> Seq<[u8; 8]>
    decreases pieces.len(),
{
    if pieces.len() == 0 {
        Seq::empty()
    } else {
        (match pieces[0] {
            SpecPiece::Number(b) => seq![b],
            SpecPiece::Text(_) => Seq::empty(),
        }) + slot_values(pieces.drop_first())
    }
}

proof fn lemma_slot_values_append(a: Seq<SpecPiece>, b: Seq<SpecPiece>)
    ensures
        slot_values(a + b) == slot_values(a) + slot_values(b),
    decreases a.len(),
{
    if a.len() == 0 {
        assert(a + b =~= b);
    } else {
        assert((a + b).drop_first() =~= a.drop_first() + b);
        lemma_slot_values_append(a.drop_first(), b);
        assert((a + b)[0] == a[0]);
    }
}

/// The distances of a guidance are those of the number slots of its wording,
/// in the same order: the `k`-th distance is worded in the `k`-th slot.
pub proof fn law_distances_fill_the_slots_in_order(g: SpecGuidance)
    ensures
        distances(g) == slot_values(render(g)),
    decreases g,
{
    reveal_with_fuel(slot_values, 4);
    match g {
        SpecGuidance::ContinueForDistance(d) => {
            let p = render(g);
            assert(p.drop_first().drop_first().drop_first().len() == 0);
            assert(slot_values(p) =~= seq![d.value_bytes]);
        },
        SpecGuidance::PrepareDistanceMessage(d, inner) => {
            law_distances_fill_the_slots_in_order(*inner);
            let head = seq![
                SpecPiece::Text("およそ"@),
                SpecPiece::Number(d.value_bytes),
                SpecPiece::Text(unit_text(d.unit) + "先、"@),
            ];
            assert(head.drop_first().drop_first().drop_first().len() == 0);
            assert(slot_values(head) =~= seq![d.value_bytes]);
            lemma_slot_values_append(head, render(*inner));
        },
        SpecGuidance::CombineMergedGuidanceEvents(a, b) => {
            law_distances_fill_the_slots_in_order(*a);
            law_distances_fill_the_slots_in_order(*b);
            let mid = seq![SpecPiece::Text("続いて、"@)];
            assert(slot_values(mid) =~= Seq::<[u8; 8]>::empty()) by {
                assert(mid.drop_first().len() == 0);
            }
            lemma_slot_values_append(render(*a), mid);
            lemma_slot_values_append(render(*a) + mid, render(*b));
            assert(slot_values(render(*a)) + Seq::<[u8; 8]>::empty() =~= slot_values(render(*a)));
        },
        _ => {
            let p = render(g);
            assert(p.len() == 1 && p[0] is Text);
            assert(p.drop_first().len() == 0);
            assert(slot_values(p) =~= Seq::<[u8; 8]>::empty());
        },
    }
}

} // verus!

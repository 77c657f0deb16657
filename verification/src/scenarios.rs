//! Scenarios: how a request (its text and its parsed guidance) becomes speech.
use crate::guidance::{Guidance, SpecGuidance};
use crate::render::{
    default_render_guidance, distance_count, fill, fill_numbers, law_wording_fills_with_one_number_per_distance,
    distance_values, render, strings_view,
};
use crate::text::{lemma_text_before_total, lemma_text_before_transitive, text_before, text_is, text_less};
use crate::voices::{share_voice, voice_name, SpecSpeaker, Speaker, SpeakerStyle, SpeechText, Voice};
use sha2::{Digest, Sha256};
use std::sync::Arc;
use vstd::prelude::*;
use vstd::string::StringSliceAdditionalSpecFns;

verus! {

/// The SHA-256 digest of `data`.
pub uninterp spec fn sha256(data: Seq<u8>) -> Seq<u8>;

/// Hashes `data` with sha2's `Sha256::digest`.
///
/// Claimed of sha2: the digest is [`sha256`] of the bytes, and it is 32 bytes
/// long (a SHA-256 digest has 256 bits).
#[verifier::external_body]
fn sha256_digest(data: &[u8]) -> (r: Vec<u8>)
    ensures
        r@ == sha256(data@),
        r@.len() == 32,
{
    Sha256::digest(data).to_vec()
}

/// The number whose little-endian bytes are the first eight of `d`.
pub open spec fn seed_of(d: Seq<u8>) -> u64 {
    (d[0] as u64) | ((d[1] as u64) << 8u64) | ((d[2] as u64) << 16u64) | ((d[3] as u64) << 24u64)
        | ((d[4] as u64) << 32u64) | ((d[5] as u64) << 40u64) | ((d[6] as u64) << 48u64) | ((
    d[7] as u64) << 56u64)
}

/// What a scenario renders: the request's text, its parsed guidance if any, a
/// seed drawn from the request's data, and the texts of the guidance's distance
/// numbers (in order) as the caller formats them.
pub struct Input<'a> {
    pub text: &'a String,
    pub guidance: Option<&'a Guidance>,
    pub seed: u64,
    pub number_texts: Vec<String>,
}

impl<'a> Input<'a> {
    /// An input whose seed is taken from the SHA-256 digest of `data`'s UTF-8
    /// bytes (its first eight bytes, little-endian); no number texts yet.
    pub fn new(text: &'a String, guidance: Option<&'a Guidance>, data: &str) -> (r: Self)
        ensures
            r.text == text,
            r.guidance == guidance,
            r.seed == seed_of(sha256(data.spec_bytes())),
            r.number_texts@.len() == 0,
    {
        let hash = sha256_digest(data.as_bytes());
        let seed = (hash[0] as u64) | ((hash[1] as u64) << 8u64) | ((hash[2] as u64) << 16u64) | ((
        hash[3] as u64) << 24u64) | ((hash[4] as u64) << 32u64) | ((hash[5] as u64) << 40u64) | ((
        hash[6] as u64) << 48u64) | ((hash[7] as u64) << 56u64);
        Input { text, guidance, seed, number_texts: Vec::new() }
    }

    /// Whether there is one number text for each distance of the guidance.
    pub fn numbers_fit(&self) -> (r: bool)
        ensures
            r == fits_numbers(self.guidance, self.number_texts@),
    {
        match self.guidance {
            Some(g) => distance_values(g).len() == self.number_texts.len(),
            None => true,
        }
    }

    /// The same input with the texts of the guidance's distance numbers.
    pub fn with_number_texts(self, number_texts: Vec<String>) -> (r: Self)
        ensures
            r.text == self.text,
            r.guidance == self.guidance,
            r.seed == self.seed,
            r.number_texts == number_texts,
    {
        Input { text: self.text, guidance: self.guidance, seed: self.seed, number_texts }
    }
}

/// One number text for each distance of the guidance, if there is guidance.
pub open spec fn fits_numbers(guidance: Option<&Guidance>, numbers: Seq<String>) -> bool {
    match guidance {
        Some(g) => numbers.len() == distance_count(g@),
        None => true,
    }
}

/// A way of turning requests into speech.
pub trait Scenario {
    fn name(&self) -> String;

    /// The speech of a request; the input holds a number text for each distance
    /// of its guidance.
    fn render(&self, input: Input) -> SpeechText
        requires
            fits_numbers(input.guidance, input.number_texts@),
    ;
}

/// A scenario that speaks with one synthesis voice: the request's text, or,
/// with `use_parser`, the default wording of its guidance.
#[derive(Debug)]
pub struct VoicevoxScenario {
    pub voice: Arc<Voice>,
    pub use_parser: bool,
}

pub open spec fn opt_guidance_view(g: Option<&Guidance>) -> Option<SpecGuidance> {
    match g {
        Some(x) => Some(x@),
        None => None,
    }
}

/// The text that a scenario speaks: with the parser and guidance, the wording of
/// the guidance with its numbers filled in (one number per distance); otherwise
/// the request's text.
pub open spec fn scenario_text(
    use_parser: bool,
    text: Seq<char>,
    guidance: Option<SpecGuidance>,
    numbers: Seq<Seq<char>>,
) -> Seq<char> {
    if use_parser {
        match guidance {
            Some(g) => fill(render(g), numbers)->Some_0,
            None => text,
        }
    } else {
        text
    }
}

pub open spec fn scenario_name(voice: Voice, use_parser: bool) -> Seq<char> {
    voice_name(voice) + if use_parser {
        "/P"@
    } else {
        ""@
    }
}

impl Scenario for VoicevoxScenario {
    fn name(&self) -> (r: String)
        ensures
            r@ == scenario_name(*self.voice, self.use_parser),
    {
        let mut out = self.voice.name();
        if self.use_parser {
            out.append("/P");
        } else {
            out.append("");
        }
        out
    }

    fn render(&self, input: Input) -> (r: SpeechText)
        ensures
            r matches SpeechText::DynamicText(t, v) && v == self.voice && t@ == scenario_text(
                self.use_parser,
                input.text@,
                opt_guidance_view(input.guidance),
                strings_view(input.number_texts@),
            ),
    {
        let text = if self.use_parser {
            match input.guidance {
                Some(g) => {
                    proof {
                        law_wording_fills_with_one_number_per_distance(
                            g@,
                            strings_view(input.number_texts@),
                        );
                    }
                    let pieces = default_render_guidance(g).unwrap();
                    fill_numbers(&pieces, &input.number_texts).unwrap()
                },
                None => input.text.clone(),
            }
        } else {
            input.text.clone()
        };
        SpeechText::DynamicText(text, share_voice(&self.voice))
    }
}

/// The model of a voice: an engine speaker by its view with its style, or a
/// recorded voice by its scenario's name and its own name.
pub enum SpecVoice {
    VOICEVOX(SpecSpeaker, SpeakerStyle),
    Static(Seq<char>, Seq<char>),
}

pub open spec fn voice_view(v: Voice) -> SpecVoice {
    match v {
        Voice::VOICEVOX(sp, st) => SpecVoice::VOICEVOX(sp@, st),
        Voice::Static(v) => SpecVoice::Static(v.scenario_name@, v.name@),
    }
}

pub open spec fn scenario_view(s: VoicevoxScenario) -> (SpecVoice, bool) {
    (voice_view(*s.voice), s.use_parser)
}

pub open spec fn scenarios_view(v: Seq<VoicevoxScenario>) -> Seq<(SpecVoice, bool)> {
    v.map_values(|s: VoicevoxScenario| scenario_view(s))
}

/// The scenarios of a speaker's styles: for each style in order, one without
/// and one with the parser.
pub open spec fn style_plan(sp: SpecSpeaker, styles: Seq<SpeakerStyle>) -> Seq<(SpecVoice, bool)>
    decreases styles.len(),
{
    if styles.len() == 0 {
        Seq::empty()
    } else {
        style_plan(sp, styles.drop_last()) + seq![
            (SpecVoice::VOICEVOX(sp, styles.last()), false),
            (SpecVoice::VOICEVOX(sp, styles.last()), true),
        ]
    }
}

/// The scenarios of all speakers, speaker by speaker.
pub open spec fn scenario_plan(speakers: Seq<Speaker>) -> Seq<(SpecVoice, bool)>
    decreases speakers.len(),
{
    if speakers.len() == 0 {
        Seq::empty()
    } else {
        scenario_plan(speakers.drop_last()) + style_plan(
            speakers.last()@,
            speakers.last().styles@,
        )
    }
}

/// The scenarios that the given speakers offer, in order: for each style of each
/// speaker, one that speaks the request's text and one that speaks the wording
/// of its guidance.
pub fn build_scenarios(speakers: &[Speaker]) -> (r: Vec<VoicevoxScenario>)
    ensures
        scenarios_view(r@) == scenario_plan(speakers@),
{
    let mut out: Vec<VoicevoxScenario> = Vec::new();
    let n = speakers.len();
    let mut i: usize = 0;
    assert(scenarios_view(out@) =~= scenario_plan(speakers@.take(0)));
    while i < n
        invariant
            n == speakers@.len(),
            i <= n,
            scenarios_view(out@) == scenario_plan(speakers@.take(i as int)),
        decreases n - i,
    {
        let speaker = &speakers[i];
        let m = speaker.styles.len();
        let mut j: usize = 0;
        let ghost base = scenarios_view(out@);
        assert(base + style_plan(speaker@, speaker.styles@.take(0)) =~= base);
        while j < m
            invariant
                m == speaker.styles@.len(),
                j <= m,
                scenarios_view(out@) == base + style_plan(speaker@, speaker.styles@.take(j as int)),
            decreases m - j,
        {
            let style = &speaker.styles[j];
            let voice = Arc::new(Voice::VOICEVOX(speaker.clone(), style.clone()));
            let ghost before = out@;
            out.push(VoicevoxScenario { voice: share_voice(&voice), use_parser: false });
            out.push(VoicevoxScenario { voice, use_parser: true });
            assert(speaker.styles@.take(j + 1).drop_last() =~= speaker.styles@.take(j as int));
            assert(scenarios_view(out@) =~= scenarios_view(before) + seq![
                (SpecVoice::VOICEVOX(speaker@, *style), false),
                (SpecVoice::VOICEVOX(speaker@, *style), true),
            ]);
            j += 1;
        }
        assert(speaker.styles@.take(m as int) =~= speaker.styles@);
        assert(speakers@.take(i + 1).drop_last() =~= speakers@.take(i as int));
        i += 1;
    }
    assert(speakers@.take(n as int) =~= speakers@);
    out
}

/// The number of styles of all `speakers`.
pub open spec fn style_total(speakers: Seq<Speaker>) -> nat
    decreases speakers.len(),
{
    if speakers.len() == 0 {
        0
    } else {
        style_total(speakers.drop_last()) + speakers.last().styles@.len()
    }
}

proof fn lemma_style_plan(sp: SpecSpeaker, styles: Seq<SpeakerStyle>)
    ensures
        style_plan(sp, styles).len() == 2 * styles.len(),
        forall|t: int|
            0 <= t < styles.len() ==> #[trigger] style_plan(sp, styles)[2 * t] == (
                SpecVoice::VOICEVOX(sp, styles[t]),
                false,
            ),
        forall|t: int|
            0 <= t < styles.len() ==> #[trigger] style_plan(sp, styles)[2 * t + 1] == (
                SpecVoice::VOICEVOX(sp, styles[t]),
                true,
            ),
    decreases styles.len(),
{
    if styles.len() > 0 {
        let init = styles.drop_last();
        let plan = style_plan(sp, styles);
        let before = style_plan(sp, init);
        lemma_style_plan(sp, init);
        assert(plan == before + seq![
            (SpecVoice::VOICEVOX(sp, styles.last()), false),
            (SpecVoice::VOICEVOX(sp, styles.last()), true),
        ]);
        assert forall|t: int| 0 <= t < styles.len() implies #[trigger] plan[2 * t] == (
            SpecVoice::VOICEVOX(sp, styles[t]),
            false,
        ) by {
            if t < styles.len() - 1 {
                assert(init[t] == styles[t]);
                assert(before[2 * t] == (SpecVoice::VOICEVOX(sp, init[t]), false));
            }
        }
        assert forall|t: int| 0 <= t < styles.len() implies #[trigger] plan[2 * t + 1] == (
            SpecVoice::VOICEVOX(sp, styles[t]),
            true,
        ) by {
            if t < styles.len() - 1 {
                assert(init[t] == styles[t]);
                assert(before[2 * t + 1] == (SpecVoice::VOICEVOX(sp, init[t]), true));
            }
        }
    }
}

proof fn lemma_plan_len(speakers: Seq<Speaker>)
    ensures
        scenario_plan(speakers).len() == 2 * style_total(speakers),
    decreases speakers.len(),
{
    if speakers.len() > 0 {
        lemma_plan_len(speakers.drop_last());
        lemma_style_plan(speakers.last()@, speakers.last().styles@);
    }
}

/// Every style of every speaker has its two scenarios, side by side: the one
/// that speaks the request's text, then the one that speaks the wording of its
/// guidance; the styles of earlier speakers, and earlier styles of the same
/// speaker, come before.
pub proof fn law_every_style_has_both_scenarios(speakers: Seq<Speaker>, s: int, t: int)
    requires
        0 <= s < speakers.len(),
        0 <= t < speakers[s].styles@.len(),
    ensures
        2 * style_total(speakers.take(s)) + 2 * t + 1 < scenario_plan(speakers).len(),
        scenario_plan(speakers)[2 * style_total(speakers.take(s)) + 2 * t] == (
            SpecVoice::VOICEVOX(speakers[s]@, speakers[s].styles@[t]),
            false,
        ),
        scenario_plan(speakers)[2 * style_total(speakers.take(s)) + 2 * t + 1] == (
            SpecVoice::VOICEVOX(speakers[s]@, speakers[s].styles@[t]),
            true,
        ),
    decreases speakers.len(),
{
    let init = speakers.drop_last();
    lemma_plan_len(speakers);
    lemma_plan_len(init);
    if s == speakers.len() - 1 {
        assert(speakers.take(s) =~= init);
        lemma_style_plan(speakers.last()@, speakers.last().styles@);
        let last = style_plan(speakers.last()@, speakers.last().styles@);
        assert(last[2 * t] == (SpecVoice::VOICEVOX(speakers[s]@, speakers[s].styles@[t]), false));
        assert(last[2 * t + 1] == (SpecVoice::VOICEVOX(speakers[s]@, speakers[s].styles@[t]), true));
        assert(scenario_plan(speakers) == scenario_plan(init) + last);
    } else {
        law_every_style_has_both_scenarios(init, s, t);
        assert(init.take(s) =~= speakers.take(s));
        assert(init[s] == speakers[s]);
        lemma_style_plan(speakers.last()@, speakers.last().styles@);
    }
}

/// The name of scenario `s`.
pub open spec fn named(s: VoicevoxScenario) -> Seq<char> {
    scenario_name(*s.voice, s.use_parser)
}

/// The scenario that `name` names among `scenarios`: of several with that name
/// the last one, as a map keyed by name keeps the last scenario put under a
/// name; `None` when no scenario has that name.
pub fn find_scenario(scenarios: &[VoicevoxScenario], name: &str) -> (r: Option<usize>)
    ensures
        match r {
            Some(i) => {
                &&& i < scenarios@.len()
                &&& named(scenarios@[i as int]) == name@
                &&& forall|j: int| i < j < scenarios@.len() ==> named(#[trigger] scenarios@[j]) != name@
            },
            None => forall|j: int| 0 <= j < scenarios@.len() ==> named(#[trigger] scenarios@[j]) != name@,
        },
{
    let mut i = scenarios.len();
    while i > 0
        invariant
            i <= scenarios@.len(),
            forall|j: int| i <= j < scenarios@.len() ==> named(#[trigger] scenarios@[j]) != name@,
        decreases i,
    {
        i -= 1;
        let n = scenarios[i].name();
        if text_is(&n, name) {
            return Some(i);
        }
    }
    None
}

/// The name of a voice by its model.
pub open spec fn spec_voice_name(v: SpecVoice) -> Seq<char> {
    match v {
        SpecVoice::VOICEVOX(sp, st) => "VOICEVOX "@ + sp.name + " ("@ + st.name@ + ")"@,
        SpecVoice::Static(scenario_name, name) => name + " ("@ + scenario_name + ")"@,
    }
}

/// The name of a scenario by its model.
pub open spec fn entry_name(e: (SpecVoice, bool)) -> Seq<char> {
    spec_voice_name(e.0) + if e.1 {
        "/P"@
    } else {
        ""@
    }
}

/// The name of the plain scenario of style `t` of speaker `s`.
pub open spec fn style_name(speakers: Seq<Speaker>, s: int, t: int) -> Seq<char> {
    "VOICEVOX "@ + speakers[s].name@ + " ("@ + speakers[s].styles@[t].name@ + ")"@
}

/// No two styles of the speakers have the same name.
pub open spec fn style_names_distinct(speakers: Seq<Speaker>) -> bool {
    forall|s1: int, t1: int, s2: int, t2: int|
        0 <= s1 < speakers.len() && 0 <= t1 < speakers[s1].styles@.len() && 0 <= s2
            < speakers.len() && 0 <= t2 < speakers[s2].styles@.len() && #[trigger] style_name(
            speakers,
            s1,
            t1,
        ) == #[trigger] style_name(speakers, s2, t2) ==> s1 == s2 && t1 == t2
}

/// The place of style `t` of speaker `s` in the scenario plan.
pub open spec fn plan_position(speakers: Seq<Speaker>, s: int, t: int) -> int {
    2 * style_total(speakers.take(s)) + 2 * t
}

proof fn lemma_named_view(sc: VoicevoxScenario)
    ensures
        named(sc) == entry_name(scenario_view(sc)),
{
}

/// Every place of the scenario plan holds a scenario of some style, at that
/// style's place (the plain one) or the next (the one with the parser).
proof fn lemma_plan_index(speakers: Seq<Speaker>, j: int) -> (r: (int, int))
    requires
        0 <= j < scenario_plan(speakers).len(),
    ensures
        0 <= r.0 < speakers.len(),
        0 <= r.1 < speakers[r.0].styles@.len(),
        j == plan_position(speakers, r.0, r.1) || j == plan_position(speakers, r.0, r.1) + 1,
        scenario_plan(speakers)[j] == (
            SpecVoice::VOICEVOX(speakers[r.0]@, speakers[r.0].styles@[r.1]),
            j == plan_position(speakers, r.0, r.1) + 1,
        ),
    decreases speakers.len(),
{
    let init = speakers.drop_last();
    let last = speakers.last();
    lemma_plan_len(init);
    lemma_style_plan(last@, last.styles@);
    let base = scenario_plan(init).len() as int;
    assert(scenario_plan(speakers) == scenario_plan(init) + style_plan(last@, last.styles@));
    if j < base {
        let r = lemma_plan_index(init, j);
        assert(init.take(r.0) =~= speakers.take(r.0));
        assert(init[r.0] == speakers[r.0]);
        r
    } else {
        let s = speakers.len() - 1;
        let k = j - base;
        let t = k / 2;
        assert(k == 2 * t || k == 2 * t + 1);
        assert(speakers.take(s) =~= init);
        assert(last == speakers[s]);
        assert(style_plan(last@, last.styles@)[2 * t] == (SpecVoice::VOICEVOX(last@, last.styles@[t]), false));
        assert(style_plan(last@, last.styles@)[2 * t + 1] == (
            SpecVoice::VOICEVOX(last@, last.styles@[t]),
            true,
        ));
        (s, t)
    }
}

/// Where the names of the styles differ, each name finds its scenario: the
/// scenarios that the speakers give (as `build_scenarios` makes them) hold the
/// plain scenario of a style under the style's name and the one with the
/// parser under that name with `/P`, and no other scenario has either name; so
/// `find_scenario` finds exactly these.
pub proof fn law_each_name_finds_its_scenario(
    scenarios: Seq<VoicevoxScenario>,
    speakers: Seq<Speaker>,
    s: int,
    t: int,
)
    requires
        scenarios_view(scenarios) == scenario_plan(speakers),
        style_names_distinct(speakers),
        0 <= s < speakers.len(),
        0 <= t < speakers[s].styles@.len(),
    ensures
        plan_position(speakers, s, t) + 1 < scenarios.len(),
        named(scenarios[plan_position(speakers, s, t)]) == style_name(speakers, s, t),
        !scenarios[plan_position(speakers, s, t)].use_parser,
        named(scenarios[plan_position(speakers, s, t) + 1]) == style_name(speakers, s, t) + "/P"@,
        scenarios[plan_position(speakers, s, t) + 1].use_parser,
        forall|j: int|
            0 <= j < scenarios.len() && named(#[trigger] scenarios[j]) == style_name(speakers, s, t)
                ==> j == plan_position(speakers, s, t),
        forall|j: int|
            0 <= j < scenarios.len() && named(#[trigger] scenarios[j]) == style_name(speakers, s, t)
                + "/P"@ ==> j == plan_position(speakers, s, t) + 1,
{
    reveal_strlit("");
    reveal_strlit("/P");
    reveal_strlit(")");
    let p = plan_position(speakers, s, t);
    let n = style_name(speakers, s, t);
    law_every_style_has_both_scenarios(speakers, s, t);
    assert(scenarios_view(scenarios).len() == scenarios.len());
    assert(scenario_view(scenarios[p]) == scenarios_view(scenarios)[p]);
    assert(scenario_view(scenarios[p + 1]) == scenarios_view(scenarios)[p + 1]);
    lemma_named_view(scenarios[p]);
    lemma_named_view(scenarios[p + 1]);
    assert(named(scenarios[p]) =~= n);
    assert(named(scenarios[p + 1]) =~= n + "/P"@);
    assert forall|j: int|
        0 <= j < scenarios.len() && named(#[trigger] scenarios[j]) == n implies j == p by {
        let r = lemma_plan_index(speakers, j);
        let q = plan_position(speakers, r.0, r.1);
        let m = style_name(speakers, r.0, r.1);
        assert(scenario_view(scenarios[j]) == scenarios_view(scenarios)[j]);
        lemma_named_view(scenarios[j]);
        if j == q + 1 {
            assert(named(scenarios[j]) =~= m + "/P"@);
            assert(named(scenarios[j]).last() == 'P');
            assert(n.last() == ')');
        } else {
            assert(named(scenarios[j]) =~= m);
        }
    }
    assert forall|j: int|
        0 <= j < scenarios.len() && named(#[trigger] scenarios[j]) == n + "/P"@ implies j == p + 1 by {
        let r = lemma_plan_index(speakers, j);
        let q = plan_position(speakers, r.0, r.1);
        let m = style_name(speakers, r.0, r.1);
        assert(scenario_view(scenarios[j]) == scenarios_view(scenarios)[j]);
        lemma_named_view(scenarios[j]);
        if j == q + 1 {
            assert(named(scenarios[j]) =~= m + "/P"@);
            assert(m =~= (m + "/P"@).subrange(0, m.len() as int));
            assert(n =~= (n + "/P"@).subrange(0, n.len() as int));
        } else {
            assert(named(scenarios[j]) =~= m);
            assert(m.last() == ')');
            assert((n + "/P"@).last() == 'P');
        }
    }
}

/// Texts in strictly increasing order, so each at most once.
pub open spec fn strictly_sorted(v: Seq<Seq<char>>) -> bool {
    forall|i: int, j: int| 0 <= i < j < v.len() ==> text_before(#[trigger] v[i], #[trigger] v[j])
}

/// Puts `x` into the sorted `out`, unless it is there already.
fn insert_name(out: &mut Vec<String>, x: String)
    requires
        strictly_sorted(strings_view(old(out)@)),
    ensures
        strictly_sorted(strings_view(final(out)@)),
        forall|y: Seq<char>|
            strings_view(final(out)@).contains(y) <==> (strings_view(old(out)@).contains(y) || y
                == x@),
{
    let ghost v = strings_view(out@);
    let n = out.len();
    let mut k: usize = 0;
    while k < n
        invariant
            n == out@.len(),
            v == strings_view(out@),
            v.len() == n,
            k <= n,
            forall|j: int| 0 <= j < k ==> text_before(#[trigger] v[j], x@),
        ensures
            k <= n,
            forall|j: int| 0 <= j < k ==> text_before(#[trigger] v[j], x@),
            k < n ==> !text_before(v[k as int], x@),
        decreases n - k,
    {
        if !text_less(out[k].as_str(), x.as_str()) {
            break;
        }
        k += 1;
    }
    if k < n && text_is(&out[k], x.as_str()) {
        assert(v[k as int] == x@);
        assert forall|y: Seq<char>| v.contains(y) <==> (v.contains(y) || y == x@) by {
            if y == x@ {
                assert(v[k as int] == y);
            }
        }
        return;
    }
    proof {
        if k < n {
            assert(v[k as int] != x@);
            lemma_text_before_total(v[k as int], x@);
            assert(text_before(x@, v[k as int]));
        }
    }
    out.insert(k, x);
    proof {
        let w = strings_view(out@);
        assert(w =~= v.insert(k as int, x@));
        assert forall|i: int, j: int| 0 <= i < j < w.len() implies text_before(#[trigger] w[i], #[trigger] w[j]) by {
            if j < k {
                assert(w[i] == v[i] && w[j] == v[j]);
            } else if j == k {
                assert(w[i] == v[i]);
            } else if i == k {
                assert(w[j] == v[j - 1]);
                if j - 1 > k {
                    lemma_text_before_transitive(x@, v[k as int], v[j - 1]);
                }
            } else if i < k {
                assert(w[i] == v[i] && w[j] == v[j - 1]);
            } else {
                assert(w[i] == v[i - 1] && w[j] == v[j - 1]);
            }
        }
        assert forall|y: Seq<char>| w.contains(y) <==> (v.contains(y) || y == x@) by {
            if w.contains(y) {
                let i = choose|i: int| 0 <= i < w.len() && w[i] == y;
                if i < k {
                    assert(v[i] == y);
                } else if i > k {
                    assert(v[i - 1] == y);
                }
            }
            if v.contains(y) {
                let i = choose|i: int| 0 <= i < v.len() && v[i] == y;
                if i < k {
                    assert(w[i] == y);
                } else {
                    assert(w[i + 1] == y);
                }
            }
            if y == x@ {
                assert(w[k as int] == y);
            }
        }
    }
}

/// The names of `scenarios`, each once, in the order of std's `Ord` for `str`.
pub fn scenario_names(scenarios: &[VoicevoxScenario]) -> (r: Vec<String>)
    ensures
        strictly_sorted(strings_view(r@)),
        forall|y: Seq<char>|
            strings_view(r@).contains(y) <==> exists|k: int|
                0 <= k < scenarios@.len() && named(#[trigger] scenarios@[k]) == y,
{
    let mut out: Vec<String> = Vec::new();
    let n = scenarios.len();
    let mut i: usize = 0;
    while i < n
        invariant
            n == scenarios@.len(),
            i <= n,
            strictly_sorted(strings_view(out@)),
            forall|y: Seq<char>|
                strings_view(out@).contains(y) <==> exists|k: int|
                    0 <= k < i && named(#[trigger] scenarios@[k]) == y,
        decreases n - i,
    {
        let name = scenarios[i].name();
        let ghost before = strings_view(out@);
        insert_name(&mut out, name);
        proof {
            assert forall|y: Seq<char>|
                strings_view(out@).contains(y) <==> exists|k: int|
                    0 <= k < i + 1 && named(#[trigger] scenarios@[k]) == y by {
                if y == named(scenarios@[i as int]) {
                    assert(0 <= i < i + 1 && named(scenarios@[i as int]) == y);
                }
                if exists|k: int| 0 <= k < i + 1 && named(#[trigger] scenarios@[k]) == y {
                    let k = choose|k: int| 0 <= k < i + 1 && named(#[trigger] scenarios@[k]) == y;
                    if k < i {
                        assert(before.contains(y));
                    }
                }
            }
        }
        i += 1;
    }
    out
}

/// A scenario without the parser speaks the request's text, whatever the guidance.
pub proof fn law_plain_scenario_speaks_request_text(
    text: Seq<char>,
    guidance: Option<SpecGuidance>,
    numbers: Seq<Seq<char>>,
)
    ensures
        scenario_text(false, text, guidance, numbers) == text,
{
}

/// A scenario with the parser speaks the request's text when there is no guidance.
pub proof fn law_parser_without_guidance_speaks_request_text(text: Seq<char>, numbers: Seq<Seq<char>>)
    ensures
        scenario_text(true, text, None, numbers) == text,
{
}

/// A scenario with the parser speaks the wording of the guidance once it has
/// one number text per distance of the guidance.
pub proof fn law_parser_speaks_guidance_wording(
    text: Seq<char>,
    g: SpecGuidance,
    numbers: Seq<Seq<char>>,
)
    requires
        numbers.len() == distance_count(g),
    ensures
        fill(render(g), numbers) is Some,
        scenario_text(true, text, Some(g), numbers) == fill(render(g), numbers)->Some_0,
{
    law_wording_fills_with_one_number_per_distance(g, numbers);
}

/// The two scenarios of one voice have different names: the one with the
/// parser carries `/P`.
pub proof fn law_scenario_names_differ(voice: Voice)
    ensures
        scenario_name(voice, true) == scenario_name(voice, false) + "/P"@,
        scenario_name(voice, true) != scenario_name(voice, false),
{
    reveal_strlit("");
    reveal_strlit("/P");
    assert(scenario_name(voice, false) =~= voice_name(voice));
    assert(scenario_name(voice, true).len() == scenario_name(voice, false).len() + 2);
}

} // verus!

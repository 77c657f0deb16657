//! Voices, the speech texts that name them, and where each piece of speech
//! comes from.
use crate::text::{join, spaces, spaces_text};
use std::sync::Arc;
use vstd::prelude::*;

verus! {

/// Another handle to the same voice, by std's `Arc::clone`.
///
/// Claimed of std (documented: a new pointer to the same allocation): the
/// handle points to the same voice.
#[verifier::external_body]
pub(crate) fn share_voice(voice: &Arc<Voice>) -> (r: Arc<Voice>)
    ensures
        r == *voice,
{
    Arc::clone(voice)
}

/// A speaker of the speech synthesis engine, with its styles.
#[derive(Debug)]
pub struct Speaker {
    pub name: String,
    pub speaker_uuid: String,
    pub styles: Vec<SpeakerStyle>,
    pub version: String,
    pub supported_features: SupportedFeatures,
}

/// One style of a speaker; `id` is what the engine calls the speaker.
#[derive(Debug)]
pub struct SpeakerStyle {
    pub name: String,
    pub id: u32,
    pub style_type: String,
}

#[derive(Debug)]
pub struct SupportedFeatures {
    pub permitted_synthesis_morphing: String,
}

impl Clone for SupportedFeatures {
    fn clone(&self) -> (r: Self)
        ensures
            r == *self,
    {
        SupportedFeatures { permitted_synthesis_morphing: self.permitted_synthesis_morphing.clone() }
    }
}

impl Clone for SpeakerStyle {
    fn clone(&self) -> (r: Self)
        ensures
            r == *self,
    {
        SpeakerStyle { name: self.name.clone(), id: self.id, style_type: self.style_type.clone() }
    }
}

pub struct SpecSpeaker {
    pub name: Seq<char>,
    pub speaker_uuid: Seq<char>,
    pub styles: Seq<SpeakerStyle>,
    pub version: Seq<char>,
    pub supported_features: SupportedFeatures,
}

impl View for Speaker {
    type V = SpecSpeaker;

    open spec fn view(&self) -> SpecSpeaker {
        SpecSpeaker {
            name: self.name@,
            speaker_uuid: self.speaker_uuid@,
            styles: self.styles@,
            version: self.version@,
            supported_features: self.supported_features,
        }
    }
}

impl Clone for Speaker {
    fn clone(&self) -> (r: Self)
        ensures
            r@ == self@,
    {
        let mut styles: Vec<SpeakerStyle> = Vec::new();
        let n = self.styles.len();
        let mut i: usize = 0;
        while i < n
            invariant
                n == self.styles@.len(),
                i <= n,
                styles@ == self.styles@.take(i as int),
            decreases n - i,
        {
            styles.push(self.styles[i].clone());
            i += 1;
            assert(styles@ =~= self.styles@.take(i as int));
        }
        assert(self.styles@.take(n as int) =~= self.styles@);
        let r = Speaker {
            name: self.name.clone(),
            speaker_uuid: self.speaker_uuid.clone(),
            styles,
            version: self.version.clone(),
            supported_features: self.supported_features.clone(),
        };
        r
    }
}

/// A voice recorded ahead of time for a scenario.
#[derive(Debug)]
pub struct StaticVoice {
    pub scenario_name: String,
    pub name: String,
}

impl StaticVoice {
    pub fn new(scenario_name: &str, name: &str) -> (r: Self)
        ensures
            r.scenario_name@ == scenario_name@,
            r.name@ == name@,
    {
        StaticVoice { scenario_name: String::from_str(scenario_name), name: String::from_str(name) }
    }
}

/// A voice: a style of a synthesis engine speaker, or recordings.
#[derive(Debug)]
pub enum Voice {
    VOICEVOX(Speaker, SpeakerStyle),
    Static(StaticVoice),
}

pub open spec fn voice_name(v: Voice) -> Seq<char> {
    match v {
        Voice::VOICEVOX(speaker, style) => "VOICEVOX "@ + speaker.name@ + " ("@ + style.name@ + ")"@,
        Voice::Static(s) => s.name@ + " ("@ + s.scenario_name@ + ")"@,
    }
}

impl Voice {
    /// The voice's display name.
    pub fn name(&self) -> (r: String)
        ensures
            r@ == voice_name(*self),
    {
        let mut out = String::new();
        match self {
            Voice::VOICEVOX(speaker, style) => {
                out.append("VOICEVOX ");
                out.append(speaker.name.as_str());
                out.append(" (");
                out.append(style.name.as_str());
                out.append(")");
            },
            Voice::Static(v) => {
                out.append(v.name.as_str());
                out.append(" (");
                out.append(v.scenario_name.as_str());
                out.append(")");
            },
        }
        out
    }
}

/// What is to be spoken: a text to say with recordings, a text to synthesize,
/// or a sequence of speech texts one after another.
#[derive(Debug)]
pub enum SpeechText {
    StaticText(String, Arc<Voice>),
    DynamicText(String, Arc<Voice>),
    Sequence(Vec<SpeechText>),
}

/// The text that std's `Debug` gives a string: quoted, with escapes.
pub uninterp spec fn debug_quoted(s: Seq<char>) -> Seq<char>;

/// Formats `s` with std's `Debug` for `str`.
///
/// Claimed of std: the result depends on the characters of `s` alone
/// ([`debug_quoted`]); which characters it escapes, and how, rests on Unicode
/// property tables and is not stated.
#[verifier::external_body]
pub(crate) fn debug_text(s: &str) -> (r: String)
    ensures
        r@ == debug_quoted(s@),
{
    format!("{:?}", s)
}

/// The lines that describe a speech text, each indented by `indent` pairs of
/// spaces; a sequence gives the lines of its parts one after another.
pub open spec fn speech_lines(t: SpeechText, indent: nat) -> Seq<char>
    decreases t,
{
    match t {
        SpeechText::StaticText(s, v) => spaces(2 * indent) + "static "@ + debug_quoted(s@) + " ["@
            + voice_name(*v) + "]"@,
        SpeechText::DynamicText(s, v) => spaces(2 * indent) + "dynamic "@ + debug_quoted(s@)
            + " ["@ + voice_name(*v) + "]"@,
        SpeechText::Sequence(children) => join(children_lines(children@, indent), "\n"@),
    }
}

pub open spec fn children_lines(cs: Seq<SpeechText>, indent: nat) -> Seq<Seq<char>>
    decreases cs,
{
    if cs.len() == 0 {
        Seq::empty()
    } else {
        children_lines(cs.subrange(0, cs.len() - 1), indent).push(
            speech_lines(cs[cs.len() - 1], indent),
        )
    }
}

proof fn lemma_children_lines(cs: Seq<SpeechText>, indent: nat)
    ensures
        children_lines(cs, indent).len() == cs.len(),
        forall|i: int|
            0 <= i < cs.len() ==> #[trigger] children_lines(cs, indent)[i] == speech_lines(
                cs[i],
                indent,
            ),
    decreases cs.len(),
{
    if cs.len() > 0 {
        lemma_children_lines(cs.subrange(0, cs.len() - 1), indent);
    }
}

fn speech_text_lines(text: &SpeechText, indent: usize) -> (r: String)
    requires
        2 * indent <= usize::MAX,
    ensures
        r@ == speech_lines(*text, indent as nat),
    decreases text,
{
    match text {
        SpeechText::StaticText(t, voice) => {
            let mut out = spaces_text(2 * indent);
            out.append("static ");
            out.append(debug_text(t.as_str()).as_str());
            out.append(" [");
            out.append(voice.name().as_str());
            out.append("]");
            out
        },
        SpeechText::DynamicText(t, voice) => {
            let mut out = spaces_text(2 * indent);
            out.append("dynamic ");
            out.append(debug_text(t.as_str()).as_str());
            out.append(" [");
            out.append(voice.name().as_str());
            out.append("]");
            out
        },
        SpeechText::Sequence(children) => {
            let ghost lines = children_lines(children@, indent as nat);
            proof {
                lemma_children_lines(children@, indent as nat);
            }
            let mut out = String::new();
            let n = children.len();
            let mut i: usize = 0;
            while i < n
                invariant
                    n == children@.len(),
                    *text == SpeechText::Sequence(*children),
                    i <= n,
                    2 * indent <= usize::MAX,
                    lines == children_lines(children@, indent as nat),
                    lines.len() == n,
                    forall|j: int| 0 <= j < n ==> #[trigger] lines[j] == speech_lines(children@[j], indent as nat),
                    out@ == join(lines.take(i as int), "\n"@),
                decreases n - i,
            {
                assert(lines.take(i + 1).drop_last() =~= lines.take(i as int));
                if i > 0 {
                    out.append("\n");
                }
                let child = &children[i];
                assert(decreases_to!(*text => text->Sequence_0));
                assert(decreases_to!(*children => children@));
                assert(decreases_to!(children@ => children@[i as int]));
                let line = speech_text_lines(child, indent);
                out.append(line.as_str());
                i += 1;
                proof {
                    if i == 1 {
                        assert(out@ =~= lines.take(1)[0]);
                    }
                }
            }
            assert(lines.take(n as int) =~= lines);
            out
        },
    }
}

/// The description of a speech text, one line per piece.
pub fn format_speech_text(text: &SpeechText) -> (r: String)
    ensures
        r@ == speech_lines(*text, 0),
{
    speech_text_lines(text, 0)
}

/// One piece of speech to produce: its text, its voice, and whether it comes
/// from recordings (`is_static`) or from synthesis.
#[derive(Debug)]
pub struct SpeechSegment {
    pub text: String,
    pub voice: Arc<Voice>,
    pub is_static: bool,
}

pub struct SpecSegment {
    pub text: Seq<char>,
    pub voice: Voice,
    pub is_static: bool,
}

impl View for SpeechSegment {
    type V = SpecSegment;

    open spec fn view(&self) -> SpecSegment {
        SpecSegment { text: self.text@, voice: *self.voice, is_static: self.is_static }
    }
}

pub open spec fn segments_view(v: Seq<SpeechSegment>) -> Seq<SpecSegment> {
    v.map_values(|s: SpeechSegment| s@)
}

/// The pieces of a speech text in the order in which they are spoken.
pub open spec fn segments(t: SpeechText) -> Seq<SpecSegment>
    decreases t,
{
    match t {
        SpeechText::StaticText(s, v) => seq![SpecSegment { text: s@, voice: *v, is_static: true }],
        SpeechText::DynamicText(s, v) => seq![
            SpecSegment { text: s@, voice: *v, is_static: false },
        ],
        SpeechText::Sequence(children) => children_segments(children@),
    }
}

pub open spec fn children_segments(cs: Seq<SpeechText>) -> Seq<SpecSegment>
    decreases cs,
{
    if cs.len() == 0 {
        Seq::empty()
    } else {
        children_segments(cs.subrange(0, cs.len() - 1)) + segments(cs[cs.len() - 1])
    }
}

/// The pieces of `text`, in order, each to be produced by its voice.
pub fn speech_segments(text: &SpeechText) -> (r: Vec<SpeechSegment>)
    ensures
        segments_view(r@) == segments(*text),
    decreases text,
{
    match text {
        SpeechText::StaticText(t, voice) => {
            let mut v = Vec::new();
            v.push(SpeechSegment { text: t.clone(), voice: share_voice(voice), is_static: true });
            assert(segments_view(v@) =~= segments(*text));
            v
        },
        SpeechText::DynamicText(t, voice) => {
            let mut v = Vec::new();
            v.push(SpeechSegment { text: t.clone(), voice: share_voice(voice), is_static: false });
            assert(segments_view(v@) =~= segments(*text));
            v
        },
        SpeechText::Sequence(children) => {
            let mut out: Vec<SpeechSegment> = Vec::new();
            let n = children.len();
            let mut i: usize = 0;
            assert(children@.subrange(0, 0) =~= Seq::<SpeechText>::empty());
            while i < n
                invariant
                    n == children@.len(),
                    *text == SpeechText::Sequence(*children),
                    i <= n,
                    segments_view(out@) == children_segments(children@.subrange(0, i as int)),
                decreases n - i,
            {
                let child = &children[i];
                assert(decreases_to!(*text => text->Sequence_0));
                assert(decreases_to!(*children => children@));
                assert(decreases_to!(children@ => children@[i as int]));
                let mut more = speech_segments(child);
                let ghost a = out@;
                let ghost b = more@;
                out.append(&mut more);
                assert(children@.subrange(0, i + 1).subrange(0, i as int) =~= children@.subrange(
                    0,
                    i as int,
                ));
                assert(segments_view(out@) =~= segments_view(a) + segments_view(b));
                i += 1;
            }
            assert(children@.subrange(0, n as int) =~= children@);
            out
        },
    }
}

/// A place where recorded voices are found, by scenario, voice and text.
#[derive(Debug, Clone)]
pub struct StaticVoiceRepository {
    pub root: String,
}

/// `part` appended to path `base` as a further component: an absolute `part`
/// replaces `base`, and a separator stands between them unless `base` is empty
/// or already ends with one (std's `Path::join` on Unix).
pub open spec fn join_path(base: Seq<char>, part: Seq<char>) -> Seq<char> {
    if part.len() > 0 && part[0] == '/' {
        part
    } else if base.len() == 0 || base.last() == '/' {
        base + part
    } else {
        base + seq!['/'] + part
    }
}

fn join_path_text(base: &str, part: &str) -> (r: String)
    ensures
        r@ == join_path(base@, part@),
{
    proof {
        reveal_strlit("/");
    }
    let blen = base.unicode_len();
    if part.unicode_len() > 0 && part.get_char(0) == '/' {
        return String::from_str(part);
    }
    let mut out = String::from_str(base);
    if !(blen == 0 || base.get_char(blen - 1) == '/') {
        out.append("/");
    }
    out.append(part);
    out
}

/// The path of the recording of `text` by `voice` under `root`.
pub open spec fn recording_path(root: Seq<char>, voice: StaticVoice, text: Seq<char>) -> Seq<char> {
    join_path(join_path(join_path(root, voice.scenario_name@), voice.name@), text + ".wav"@)
}

impl StaticVoiceRepository {
    pub fn new(root: &str) -> (r: Self)
        ensures
            r.root@ == root@,
    {
        StaticVoiceRepository { root: String::from_str(root) }
    }

    /// Where the recording of `text` by `voice` is kept.
    pub fn file_path(&self, voice: &StaticVoice, text: &str) -> (r: String)
        ensures
            r@ == recording_path(self.root@, *voice, text@),
    {
        let a = join_path_text(self.root.as_str(), voice.scenario_name.as_str());
        let b = join_path_text(a.as_str(), voice.name.as_str());
        let mut file = String::from_str(text);
        file.append(".wav");
        join_path_text(b.as_str(), file.as_str())
    }
}

/// Where the audio of a piece of speech comes from.
#[derive(Debug, PartialEq)]
pub enum AudioSource {
    /// Synthesis by the engine, with this speaker style id.
    Voicevox(u32),
    /// A recording, at this path.
    StaticFile(String),
    /// The voice cannot produce this piece.
    Unsupported,
}

/// The source of a text that recordings may hold: synthesis for an engine
/// voice, the recording for a recorded voice.
pub fn static_text_source(repo: &StaticVoiceRepository, text: &str, voice: &Voice) -> (r: AudioSource)
    ensures
        match *voice {
            Voice::VOICEVOX(_, style) => r == AudioSource::Voicevox(style.id),
            Voice::Static(v) => r matches AudioSource::StaticFile(p) && p@ == recording_path(
                repo.root@,
                v,
                text@,
            ),
        },
{
    match voice {
        Voice::VOICEVOX(_, style) => AudioSource::Voicevox(style.id),
        Voice::Static(v) => AudioSource::StaticFile(repo.file_path(v, text)),
    }
}

/// The source of a text made up on the spot: only an engine voice can say it.
pub fn dynamic_text_source(voice: &Voice) -> (r: AudioSource)
    ensures
        match *voice {
            Voice::VOICEVOX(_, style) => r == AudioSource::Voicevox(style.id),
            Voice::Static(_) => r == AudioSource::Unsupported,
        },
{
    match voice {
        Voice::VOICEVOX(_, style) => AudioSource::Voicevox(style.id),
        Voice::Static(_) => AudioSource::Unsupported,
    }
}

/// The sample rate of the speech that is produced.
pub const OUTPUT_SAMPLE_RATE: u32 = 24000;

/// Whether a piece of audio has the layout that speech is assembled from:
/// one channel of 16-bit samples.
pub fn wav_layout_accepted(channels: u16, bits_per_sample: u16) -> (r: bool)
    ensures
        r == (channels == 1 && bits_per_sample == 16),
{
    channels == 1 && bits_per_sample == 16
}

/// Whether audio at `sample_rate` must be resampled to the output rate.
pub fn needs_resample(sample_rate: u32) -> (r: bool)
    ensures
        r == (sample_rate != OUTPUT_SAMPLE_RATE),
{
    sample_rate != OUTPUT_SAMPLE_RATE
}

} // verus!

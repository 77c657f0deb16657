use pf4voice::guidance::{Distance, DistanceUnit, Guidance, Intersection, Turn, TurnSharpness, TurnSide};
use pf4voice::render::distance_values;
use pf4voice::scenarios::{build_scenarios, Input, Scenario, VoicevoxScenario};
use pf4voice::voices::{
    dynamic_text_source, format_speech_text, needs_resample, speech_segments, static_text_source,
    wav_layout_accepted, AudioSource, Speaker, SpeakerStyle, SpeechText, StaticVoice, StaticVoiceRepository,
    SupportedFeatures, Voice, OUTPUT_SAMPLE_RATE,
};
use std::sync::Arc;

fn style(name: &str, id: u32) -> SpeakerStyle {
    SpeakerStyle { name: name.to_string(), id, style_type: "talk".to_string() }
}

fn speaker(name: &str, styles: Vec<SpeakerStyle>) -> Speaker {
    Speaker {
        name: name.to_string(),
        speaker_uuid: "uuid".to_string(),
        styles,
        version: "0.1".to_string(),
        supported_features: SupportedFeatures { permitted_synthesis_morphing: "ALL".to_string() },
    }
}

fn zundamon() -> Voice {
    Voice::VOICEVOX(speaker("ずんだもん", vec![style("ノーマル", 3)]), style("ノーマル", 3))
}

fn recorded() -> Voice {
    Voice::Static(StaticVoice::new("stamp", "六花"))
}

#[test]
fn voice_names() {
    assert_eq!(zundamon().name(), "VOICEVOX ずんだもん (ノーマル)");
    assert_eq!(recorded().name(), "六花 (stamp)");
}

#[test]
fn recording_paths() {
    let voice = StaticVoice::new("stamp", "六花");
    assert_eq!(StaticVoiceRepository::new("static").file_path(&voice, "こんにちは"), "static/stamp/六花/こんにちは.wav");
    assert_eq!(StaticVoiceRepository::new("static/").file_path(&voice, "a"), "static/stamp/六花/a.wav");
    assert_eq!(StaticVoiceRepository::new("").file_path(&voice, "a"), "stamp/六花/a.wav");
    assert_eq!(StaticVoiceRepository::new("static").file_path(&voice, "/abs"), "/abs.wav");
    let rooted = StaticVoice::new("/voices", "v");
    assert_eq!(StaticVoiceRepository::new("static").file_path(&rooted, "a"), "/voices/v/a.wav");
}

#[test]
fn audio_sources() {
    let repo = StaticVoiceRepository::new("static");
    assert_eq!(static_text_source(&repo, "a", &zundamon()), AudioSource::Voicevox(3));
    assert_eq!(
        static_text_source(&repo, "a", &recorded()),
        AudioSource::StaticFile("static/stamp/六花/a.wav".to_string())
    );
    assert_eq!(dynamic_text_source(&zundamon()), AudioSource::Voicevox(3));
    assert_eq!(dynamic_text_source(&recorded()), AudioSource::Unsupported);
}

#[test]
fn wav_layout_and_rate() {
    assert!(wav_layout_accepted(1, 16));
    assert!(!wav_layout_accepted(2, 16));
    assert!(!wav_layout_accepted(1, 8));
    assert_eq!(OUTPUT_SAMPLE_RATE, 24000);
    assert!(!needs_resample(24000));
    assert!(needs_resample(48000));
}

#[test]
fn speech_text_description() {
    let z = Arc::new(zundamon());
    let r = Arc::new(recorded());
    let text = SpeechText::Sequence(vec![
        SpeechText::StaticText("おはよう".to_string(), r.clone()),
        SpeechText::Sequence(vec![SpeechText::DynamicText("say \"hi\"\n".to_string(), z.clone())]),
        SpeechText::Sequence(vec![]),
    ]);
    assert_eq!(
        format_speech_text(&text),
        "static \"おはよう\" [六花 (stamp)]\ndynamic \"say \\\"hi\\\"\\n\" [VOICEVOX ずんだもん (ノーマル)]\n"
    );
    assert_eq!(format_speech_text(&SpeechText::DynamicText("x".to_string(), z)), "dynamic \"x\" [VOICEVOX ずんだもん (ノーマル)]");
}

#[test]
fn speech_segments_in_order() {
    let z = Arc::new(zundamon());
    let r = Arc::new(recorded());
    let text = SpeechText::Sequence(vec![
        SpeechText::StaticText("a".to_string(), r.clone()),
        SpeechText::Sequence(vec![
            SpeechText::DynamicText("b".to_string(), z.clone()),
            SpeechText::StaticText("c".to_string(), z.clone()),
        ]),
    ]);
    let segs = speech_segments(&text);
    assert_eq!(segs.len(), 3);
    assert_eq!(segs[0].text, "a");
    assert!(segs[0].is_static);
    assert!(Arc::ptr_eq(&segs[0].voice, &r));
    assert_eq!(segs[1].text, "b");
    assert!(!segs[1].is_static);
    assert!(Arc::ptr_eq(&segs[1].voice, &z));
    assert_eq!(segs[2].text, "c");
    assert!(segs[2].is_static);
    assert!(speech_segments(&SpeechText::Sequence(vec![])).is_empty());
}

#[test]
fn input_seed_comes_from_sha256_of_data() {
    let text = "hello".to_string();
    let input = Input::new(&text, None, "");
    // SHA-256 of the empty string starts e3 b0 c4 42 98 fc 1c 14.
    assert_eq!(input.seed, 0x141c_fc98_42c4_b0e3);
    assert!(input.number_texts.is_empty());
    let other = Input::new(&text, None, "abc");
    // SHA-256 of "abc" starts ba 78 16 bf 8f 01 cf ea.
    assert_eq!(other.seed, 0xeacf_018f_bf16_78ba);
}

fn turn_guidance() -> Guidance {
    Guidance::PrepareDistanceMessage(
        Distance { value_bytes: 300.0f64.to_le_bytes(), unit: DistanceUnit::Meter, distance_override: None },
        Box::new(Guidance::TurnStep(
            Turn { sharpness: TurnSharpness::Normal, side: TurnSide::Left },
            None,
            Intersection { name: None, traffic_light: None, stop_sign: None },
        )),
    )
}

fn dynamic_text(t: &SpeechText) -> &str {
    match t {
        SpeechText::DynamicText(s, _) => s.as_str(),
        _ => panic!("expected a dynamic text"),
    }
}

#[test]
fn plain_scenario_speaks_request_text() {
    let voice = Arc::new(zundamon());
    let plain = VoicevoxScenario { voice: voice.clone(), use_parser: false };
    let text = "三百メートル先左".to_string();
    let g = turn_guidance();
    let out = plain.render(Input::new(&text, Some(&g), "d").with_number_texts(vec!["300".to_string()]));
    assert_eq!(dynamic_text(&out), "三百メートル先左");
    match out {
        SpeechText::DynamicText(_, v) => assert!(Arc::ptr_eq(&v, &voice)),
        _ => panic!("expected a dynamic text"),
    }
}

#[test]
fn parser_scenario_speaks_guidance_wording() {
    let voice = Arc::new(zundamon());
    let parser = VoicevoxScenario { voice, use_parser: true };
    let text = "request text".to_string();
    let g = turn_guidance();
    let out = parser.render(Input::new(&text, Some(&g), "d").with_number_texts(vec!["300".to_string()]));
    assert_eq!(dynamic_text(&out), "およそ300メートル先、左方向です。");
    let out = parser.render(Input::new(&text, None, "d"));
    assert_eq!(dynamic_text(&out), "request text");
    // Guidance without distances needs no number texts.
    let plain = Guidance::DestinationStepAct;
    let out = parser.render(Input::new(&text, Some(&plain), "d"));
    assert_eq!(dynamic_text(&out), "目的地に到着しました");
}

#[test]
fn inputs_carry_one_number_text_per_distance() {
    let text = "t".to_string();
    let g = turn_guidance();
    assert_eq!(distance_values(&g), vec![300.0f64.to_le_bytes()]);
    assert!(!Input::new(&text, Some(&g), "d").numbers_fit());
    assert!(Input::new(&text, Some(&g), "d").with_number_texts(vec!["300".to_string()]).numbers_fit());
    assert!(!Input::new(&text, Some(&g), "d")
        .with_number_texts(vec!["1".to_string(), "2".to_string()])
        .numbers_fit());
    assert!(Input::new(&text, None, "d").numbers_fit());
    let both = Guidance::CombineMergedGuidanceEvents(Box::new(g), Box::new(turn_guidance()));
    assert_eq!(distance_values(&both).len(), 2);
    assert!(distance_values(&Guidance::DestinationStepAct).is_empty());
}

#[test]
fn scenario_names() {
    let voice = Arc::new(zundamon());
    let plain = VoicevoxScenario { voice: voice.clone(), use_parser: false };
    let parser = VoicevoxScenario { voice, use_parser: true };
    assert_eq!(plain.name(), "VOICEVOX ずんだもん (ノーマル)");
    assert_eq!(parser.name(), "VOICEVOX ずんだもん (ノーマル)/P");
    assert_ne!(plain.name(), parser.name());
}

#[test]
fn scenarios_for_every_style() {
    let speakers = vec![
        speaker("ずんだもん", vec![style("ノーマル", 3), style("あまあま", 1)]),
        speaker("春日部つむぎ", vec![style("ノーマル", 8)]),
    ];
    let scenarios = build_scenarios(&speakers);
    let names: Vec<String> = scenarios.iter().map(|s| s.name()).collect();
    assert_eq!(
        names,
        vec![
            "VOICEVOX ずんだもん (ノーマル)",
            "VOICEVOX ずんだもん (ノーマル)/P",
            "VOICEVOX ずんだもん (あまあま)",
            "VOICEVOX ずんだもん (あまあま)/P",
            "VOICEVOX 春日部つむぎ (ノーマル)",
            "VOICEVOX 春日部つむぎ (ノーマル)/P",
        ]
    );
    assert!(!scenarios[0].use_parser);
    assert!(scenarios[1].use_parser);
    assert!(Arc::ptr_eq(&scenarios[0].voice, &scenarios[1].voice));
    match &*scenarios[5].voice {
        Voice::VOICEVOX(sp, st) => {
            assert_eq!(sp.name, "春日部つむぎ");
            assert_eq!(st.id, 8);
        }
        Voice::Static(_) => panic!("expected an engine voice"),
    }
    assert!(build_scenarios(&[]).is_empty());
}

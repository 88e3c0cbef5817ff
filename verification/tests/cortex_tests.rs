use wakey::cortex::agent_loop::{
    heartbeat_action, iteration_messages, skill_creation, stop_message, HeartbeatAction,
    HeartbeatKind, IterationBudget, IterationGate, MAX_ITERATIONS,
};
use wakey::skills::learning::LearningTracker;
use wakey::cortex::decision::{
    build_system_prompt, current_turn, fact_key, focus_context, should_reflect_after,
    DecisionContext, MAX_HISTORY_MESSAGES,
};
use wakey::cortex::llm::{chat_answer, chat_reply, chat_url, provider_base_url, sanitize_error};
use wakey::cortex::plugin_host::{
    env_reference, expand_env_value, speak_request, translate_plugin_event, PluginConfig,
    PluginOutputEvent, PluginVoiceEvent, RestartAction, RestartPolicy,
};
use wakey::cortex::prompt_loader::{
    prompt_content, truncate_chars, DEFAULT_SOUL, MAX_PROMPT_CHARS,
};
use wakey::cortex::voice::{
    accepts_chunk, extract_transcript, is_speakable, tts_frame_of, tts_text_frame, InterruptionChecker, MicConfig, PipelineAction, PipelineTurn,
    SpeakSession, SpeakerConfig, SttAlternative, SttChannel, SttResponse, SttResult, TranscriptAccumulator, TtsAction, TtsFrame, VadEvent,
    VadState, VoiceConversation, MAX_BUFFER_SIZE, PRE_BUFFER_CHUNKS, VOICE_SYSTEM_PROMPT,
};
use wakey::context::memory::MemoryCategory;
use wakey::types::{ChatMessage, PersonaConfig, Urgency, VoiceConfig};

#[test]
fn test_truncate_chars() {
    let s = "hello world";
    assert_eq!(truncate_chars(s, 5), "hello");
    assert_eq!(truncate_chars(s, 100), s);
    assert_eq!(truncate_chars(s, 0), "");
}

#[test]
fn test_default_soul_within_limit() {
    assert!(
        DEFAULT_SOUL.chars().count() <= MAX_PROMPT_CHARS,
        "DEFAULT_SOUL exceeds MAX_PROMPT_CHARS"
    );
}

#[test]
fn test_mic_config_default() {
    let config = MicConfig::default();
    assert_eq!(config.sample_rate, 16000);
    assert_eq!(config.channels, 1);
}

#[test]
fn test_speaker_config_default() {
    let config = SpeakerConfig::default();
    assert_eq!(config.sample_rate, 24000);
    assert_eq!(config.channels, 1);
}

fn persona() -> PersonaConfig {
    PersonaConfig {
        name: "Buddy".into(),
        style: "casual".into(),
        proactive: true,
    }
}

#[test]
fn test_add_to_history() {
    let mut ctx = DecisionContext::new(persona());

    ctx.add_to_history(ChatMessage::user("Hello"));
    ctx.add_to_history(ChatMessage::assistant("Hi there!"));

    let history = ctx.get_history();
    assert_eq!(history.len(), 2);
}

#[test]
fn test_history_limit() {
    let mut ctx = DecisionContext::new(persona());

    for i in 0..(MAX_HISTORY_MESSAGES + 5) {
        ctx.add_to_history(ChatMessage::user(&format!("Message {}", i)));
    }

    let history = ctx.get_history();
    assert_eq!(history.len(), MAX_HISTORY_MESSAGES);
}

#[test]
fn history_keeps_the_latest_messages() {
    let mut ctx = DecisionContext::new(persona());
    for i in 0..(MAX_HISTORY_MESSAGES + 3) {
        ctx.add_to_history(ChatMessage::user(&format!("Message {}", i)));
    }
    let history = ctx.get_history();
    assert_eq!(history[0].content, "Message 3");
    assert_eq!(history[MAX_HISTORY_MESSAGES - 1].content, "Message 12");
    assert_eq!(ctx.persona().name, "Buddy");
}

#[test]
fn system_prompt_names_persona_and_style() {
    let prompt = build_system_prompt(&persona(), &vec![], None, "2024-01-01 10:00");
    assert!(prompt.contains("Buddy"));
    assert!(prompt.contains("casual"));
    let with_skill = build_system_prompt(
        &persona(),
        &vec!["likes Rust".to_string()],
        Some(("deploy", "how to deploy")),
        "now",
    );
    assert!(with_skill.contains("likes Rust"));
    assert!(with_skill.contains("deploy"));
}

#[test]
fn current_turn_prefers_the_query() {
    assert_eq!(
        current_turn("User is coding in VS Code", Some("ask about editor")),
        "ask about editor"
    );
    assert!(current_turn("User is coding", None).contains("User is coding"));
}

#[test]
fn reflection_is_due_after_interval() {
    assert!(!should_reflect_after(0));
    assert!(should_reflect_after(1000));
    assert!(!should_reflect_after(899));
}

#[test]
fn fact_keys_and_focus_text() {
    assert_eq!(fact_key(&MemoryCategory::Core, "20240101"), "core/20240101.md");
    assert_eq!(
        focus_context("code", "main.rs"),
        "User is looking at code - main.rs"
    );
}

#[test]
fn iteration_budget_counts_and_stops() {
    let mut budget = IterationBudget::new();
    assert_eq!(budget.iterations, 0);
    for _ in 0..MAX_ITERATIONS {
        assert_eq!(budget.begin(), IterationGate::Proceed);
    }
    assert_eq!(budget.iterations, MAX_ITERATIONS);
    assert_eq!(budget.begin(), IterationGate::MaxIterations);
    assert!(stop_message(IterationGate::MaxIterations).is_some());
    assert!(stop_message(IterationGate::Proceed).is_none());
    budget.reset_iterations();
    assert_eq!(budget.iterations, 0);
    budget.budget = 0;
    assert_eq!(budget.begin(), IterationGate::BudgetExhausted);
}

#[test]
fn heartbeat_reflects_only_when_due() {
    assert_eq!(
        heartbeat_action(HeartbeatKind::Reflect, false, false),
        HeartbeatAction::Reflect
    );
    assert_ne!(
        heartbeat_action(HeartbeatKind::Breath, true, false),
        HeartbeatAction::Reflect
    );
    assert_eq!(
        heartbeat_action(HeartbeatKind::Breath, true, true),
        HeartbeatAction::Reflect
    );
}

#[test]
fn llm_urls_and_error_redaction() {
    assert_eq!(provider_base_url("https://api.x.com/v1//"), "https://api.x.com/v1");
    assert_eq!(
        chat_url("https://api.x.com/v1"),
        "https://api.x.com/v1/chat/completions"
    );
    assert_eq!(
        chat_url("https://api.x.com/v1/chat/completions"),
        "https://api.x.com/v1/chat/completions"
    );
    assert_eq!(
        sanitize_error("bad api_key=abc123 here"),
        "bad [REDACTED] here"
    );
    assert_eq!(sanitize_error(&"e".repeat(600)).chars().count(), 500);
}

#[test]
fn test_expand_env_vars_values() {
    assert_eq!(env_reference("${TEST_KEY}"), Some("TEST_KEY".to_string()));
    assert_eq!(env_reference("direct_value"), None);
    assert_eq!(
        expand_env_value("${TEST_KEY}", "TEST_KEY", "test_value"),
        "test_value"
    );
    assert_eq!(
        expand_env_value("pre-${A}-post", "A", "x"),
        "pre-x-post"
    );
}

#[test]
fn plugin_speak_and_translate() {
    let req = speak_request("Hello!", &Urgency::Low);
    assert_eq!(req.event, "ShouldSpeak");
    assert_eq!(req.text.as_deref(), Some("Hello!"));
    assert_eq!(req.urgency.as_deref(), Some("low"));

    let ev = PluginOutputEvent {
        event: "VoiceUserSpeaking".to_string(),
        text: Some("hello".to_string()),
        is_final: Some(true),
        message: None,
    };
    match translate_plugin_event(ev) {
        Some(PluginVoiceEvent::UserSpeaking { text, is_final }) => {
            assert_eq!(text, "hello");
            assert!(is_final);
        }
        other => panic!("unexpected {:?}", other),
    }
    let unknown = PluginOutputEvent {
        event: "Whatever".to_string(),
        text: None,
        is_final: None,
        message: None,
    };
    assert!(translate_plugin_event(unknown).is_none());
    let config = PluginConfig::default();
    assert!(config.env.is_empty());
}

#[test]
fn restart_policy_gives_up_after_five() {
    let mut policy = RestartPolicy::new();
    for _ in 0..5 {
        assert_eq!(policy.on_process_dead(), RestartAction::Restart);
    }
    assert_eq!(policy.on_process_dead(), RestartAction::GiveUp);
    assert_eq!(policy.restart_count, 5);
}

#[test]
fn prompt_file_content_or_default() {
    assert_eq!(prompt_content(Some("custom"), "default"), "custom");
    assert_eq!(prompt_content(None, "default"), "default");
    let long = "y".repeat(MAX_PROMPT_CHARS + 10);
    assert_eq!(
        prompt_content(Some(&long), "default").chars().count(),
        MAX_PROMPT_CHARS
    );
}

#[test]
fn vad_debounces_speech_and_silence() {
    let mut vad = VadState::new(3, 5);
    for _ in 0..10 {
        assert_eq!(vad.step(false), VadEvent::SilenceActive);
    }
    assert!(!vad.is_speaking());
    assert_eq!(vad.step(true), VadEvent::SilenceActive);
    assert_eq!(vad.step(true), VadEvent::SilenceActive);
    assert_eq!(vad.step(true), VadEvent::SpeechStarted);
    assert!(vad.is_speaking());
    assert_eq!(vad.step(true), VadEvent::SpeechActive);
    for i in 0..5 {
        let event = vad.step(false);
        if i < 4 {
            assert_eq!(event, VadEvent::SpeechActive);
        } else {
            assert_eq!(event, VadEvent::SpeechEnded);
        }
    }
    assert!(!vad.is_speaking());
    for _ in 0..20 {
        vad.step(true);
    }
    assert!(vad.is_speaking());
    vad.reset();
    assert!(!vad.is_speaking());
}

#[test]
fn transcript_accumulates_final_pieces() {
    let mut acc = TranscriptAccumulator::new();
    let r = acc.on_response(Some("hello"), Some(true), Some(false));
    assert_eq!(r.len(), 1);
    assert_eq!(r[0].text, "hello");
    let r = acc.on_response(Some("world"), Some(true), Some(true));
    assert!(r.iter().any(|x| x.is_speech_final && x.text == "hello world"));
    let r = acc.on_response(Some(""), Some(true), Some(false));
    assert!(r.is_empty());
}

#[test]
fn speaking_prebuffers_then_plays() {
    let mut session = SpeakSession::new();
    for _ in 0..PRE_BUFFER_CHUNKS - 1 {
        assert_eq!(
            session.on_frame(TtsFrame::Audio { len: 100 }, 0),
            TtsAction::PreBuffer { start_playback: false }
        );
    }
    assert_eq!(
        session.on_frame(TtsFrame::Audio { len: 100 }, 0),
        TtsAction::PreBuffer { start_playback: true }
    );
    assert_eq!(session.on_frame(TtsFrame::Audio { len: 100 }, 0), TtsAction::Queue);
    assert_eq!(
        session.on_frame(TtsFrame::Audio { len: 100 }, MAX_BUFFER_SIZE),
        TtsAction::Drop
    );
    assert!(accepts_chunk(0));
    assert!(!accepts_chunk(MAX_BUFFER_SIZE));
}

#[test]
fn iteration_messages_frame_the_history() {
    let history = vec![ChatMessage::user("hi"), ChatMessage::assistant("hello")];
    let msgs = iteration_messages("sys", &history, "now");
    assert_eq!(msgs.len(), 4);
    assert_eq!(msgs[0].role, "system");
    assert_eq!(msgs[0].content, "sys");
    assert_eq!(msgs[2].content, "hello");
    assert_eq!(msgs[3].role, "user");
    assert_eq!(msgs[3].content, "now");
}

#[test]
fn skill_capture_consumes_the_nudge() {
    let mut tracker = LearningTracker::with_interval(2);
    assert_eq!(skill_creation(&mut tracker), None);
    tracker.on_tool_call();
    tracker.on_tool_call();
    assert_eq!(
        skill_creation(&mut tracker),
        Some(("pending".to_string(), "Skill from IterationCount trigger".to_string()))
    );
    assert_eq!(tracker.stats().iters_since_skill, 0);
    assert_eq!(tracker.stats().total_iterations, 2);
    assert_eq!(skill_creation(&mut tracker), None);
}

#[test]
fn tts_text_messages_become_frames() {
    assert!(matches!(tts_text_frame("{\"type\":\"Flushed\"}"), TtsFrame::Flushed));
    match tts_text_frame("{\"type\":\"Error\",\"message\":\"quota\"}") {
        TtsFrame::Error { message } => assert_eq!(message.as_deref(), Some("quota")),
        other => panic!("unexpected {:?}", other),
    }
    match tts_text_frame("{\"type\":\"Error\"}") {
        TtsFrame::Error { message } => assert_eq!(message, None),
        other => panic!("unexpected {:?}", other),
    }
    assert!(matches!(tts_text_frame("{\"type\":\"Metadata\"}"), TtsFrame::Other));
    assert!(matches!(tts_text_frame("not json"), TtsFrame::Other));
}

fn voice_config(endpointing_ms: u32) -> VoiceConfig {
    VoiceConfig {
        enabled: true,
        api_key_env: "DEEPGRAM_API_KEY".to_string(),
        stt_model: "nova-3".to_string(),
        tts_model: "aura-2-asteria-en".to_string(),
        asr_sample_rate: 16000,
        tts_sample_rate: 24000,
        language: "en".to_string(),
        endpointing_ms,
    }
}

#[test]
fn voice_conversation_keeps_five_exchanges() {
    let mut conv = VoiceConversation::new();
    let first = conv.messages_for("hi");
    assert_eq!(first.len(), 2);
    assert_eq!(first[0].role, "system");
    assert_eq!(first[0].content, VOICE_SYSTEM_PROMPT);
    assert_eq!(first[1].content, "hi");
    for i in 0..7 {
        conv.record_exchange(&format!("q{}", i), &format!("a{}", i));
    }
    let msgs = conv.messages_for("next");
    assert_eq!(msgs.len(), 12);
    assert_eq!(msgs[1].role, "user");
    assert_eq!(msgs[1].content, "q2");
    assert_eq!(msgs[10].role, "assistant");
    assert_eq!(msgs[10].content, "a6");
    assert_eq!(msgs[11].content, "next");
}

#[test]
fn speaking_over_the_companion_stops_it() {
    let mut turn = PipelineTurn::new();
    assert_eq!(turn.on_vad(VadEvent::SpeechStarted), vec![PipelineAction::ListeningStarted]);
    turn.speaking_started();
    assert_eq!(
        turn.on_vad(VadEvent::SpeechStarted),
        vec![
            PipelineAction::StopPlayback,
            PipelineAction::ListeningStopped,
            PipelineAction::ListeningStarted
        ]
    );
    assert!(!turn.tts_playing);
    assert!(turn.on_vad(VadEvent::SpeechActive).is_empty());
}

#[test]
fn finished_turns_are_answered() {
    let turn = PipelineTurn::new();
    let done = SttResult { text: "what time is it".to_string(), is_final: true, is_speech_final: true };
    assert_eq!(
        turn.on_transcript(&done),
        vec![
            PipelineAction::ListeningStopped,
            PipelineAction::UserSpeaking { text: "what time is it".to_string(), is_final: true },
            PipelineAction::Respond("what time is it".to_string())
        ]
    );
    let silent = SttResult { text: String::new(), is_final: true, is_speech_final: true };
    assert!(turn.on_transcript(&silent).is_empty());
    let interim = SttResult { text: "what".to_string(), is_final: false, is_speech_final: false };
    assert_eq!(
        turn.on_transcript(&interim),
        vec![PipelineAction::UserSpeaking { text: "what".to_string(), is_final: false }]
    );
}

#[test]
fn interruption_needs_ten_speech_frames() {
    let mut checker = InterruptionChecker::new(&voice_config(300));
    for _ in 0..9 {
        assert!(!checker.check(true));
    }
    assert!(checker.check(true));
    assert!(!checker.check(true));
}

#[test]
fn chat_replies_are_judged() {
    assert_eq!(
        chat_reply(true, "200 OK", "{}", Ok(Some("Hello!".to_string()))),
        Ok("Hello!".to_string())
    );
    assert_eq!(
        chat_reply(true, "200 OK", "{\"choices\":[]}", Ok(None)),
        Err("No response content returned".to_string())
    );
    assert_eq!(
        chat_reply(false, "401 Unauthorized", "bad api_key=abc def", Ok(None)),
        Err("API error (401 Unauthorized): bad [REDACTED] def".to_string())
    );
    assert_eq!(
        chat_reply(true, "200 OK", "oops", Err("expected value".to_string())),
        Err("Failed to parse response: expected value (body: oops...)".to_string())
    );
}

#[test]
fn test_extract_transcript() {
    let response = SttResponse {
        is_final: Some(true),
        speech_final: None,
        channel: Some(SttChannel {
            alternatives: Some(vec![SttAlternative {
                transcript: "hello world".to_string(),
            }]),
        }),
    };

    let transcript = extract_transcript(&response);
    assert_eq!(transcript, Some("hello world".to_string()));
}

#[test]
fn test_extract_transcript_empty() {
    let response = SttResponse {
        is_final: Some(true),
        speech_final: None,
        channel: Some(SttChannel {
            alternatives: Some(vec![SttAlternative {
                transcript: "".to_string(),
            }]),
        }),
    };

    let transcript = extract_transcript(&response);
    assert_eq!(transcript, None);
}

#[test]
fn a_response_without_alternatives_has_no_transcript() {
    let response = SttResponse {
        is_final: None,
        speech_final: Some(true),
        channel: Some(SttChannel { alternatives: Some(vec![]) }),
    };
    assert_eq!(extract_transcript(&response), None);
    let bare = SttResponse { is_final: None, speech_final: None, channel: None };
    assert_eq!(extract_transcript(&bare), None);
}

#[test]
fn test_should_reflect() {
    let mut ctx = DecisionContext::new(persona());

    // Just created, should not reflect
    assert!(!ctx.should_reflect());

    // A thousand seconds after the last reflection, one is due
    assert!(should_reflect_after(1000));

    // After mark, should reset
    ctx.mark_reflect_done();
    assert!(!ctx.should_reflect());
}

#[test]
fn test_iteration_counter() {
    let mut budget = IterationBudget::new();

    assert_eq!(budget.iterations, 0);
    assert_eq!(budget.begin(), IterationGate::Proceed);
    assert_eq!(budget.iterations, 1);

    budget.reset_iterations();
    assert_eq!(budget.iterations, 0);
}

#[test]
fn credentials_are_redacted_with_their_values() {
    let clean = sanitize_error("api_key: sk-abc123 rejected");
    assert_eq!(clean, "[REDACTED] rejected");
    assert!(!clean.contains("sk-abc123"));
    assert_eq!(sanitize_error("bad token=xyz"), "bad [REDACTED]");
    assert_eq!(sanitize_error("api_key: k1 and token: t2 expired"), "[REDACTED] and [REDACTED] expired");
    assert_eq!(sanitize_error("nothing secret"), "nothing secret");
}

#[test]
fn empty_text_is_not_spoken() {
    assert!(!is_speakable(""));
    assert!(is_speakable("Hi"));
}

#[test]
fn synthesis_frames_from_their_fields() {
    assert!(matches!(tts_frame_of(Some("Flushed"), None), TtsFrame::Flushed));
    assert!(matches!(
        tts_frame_of(Some("Error"), Some("bad voice")),
        TtsFrame::Error { message: Some(m) } if m == "bad voice"
    ));
    assert!(matches!(tts_frame_of(Some("Metadata"), None), TtsFrame::Other));
    assert!(matches!(tts_frame_of(None, None), TtsFrame::Other));
}

#[test]
fn chat_bodies_are_read() {
    let body = "{\"choices\":[{\"message\":{\"role\":\"assistant\",\"content\":\"Hello!\"}}]}";
    assert_eq!(chat_answer(true, "200 OK", body), Ok("Hello!".to_string()));
    assert_eq!(
        chat_answer(true, "200 OK", "{\"choices\":[{\"message\":{\"content\":null}}]}"),
        Err("No response content returned".to_string())
    );
    let err = chat_answer(true, "200 OK", "not json").unwrap_err();
    assert!(err.starts_with("Failed to parse response: "));
    assert!(err.ends_with(" (body: not json...)"));
    assert_eq!(
        chat_answer(false, "500 Internal Server Error", "oops"),
        Err("API error (500 Internal Server Error): oops".to_string())
    );
}

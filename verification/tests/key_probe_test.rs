use vong::key_probe::{
    key_probe_target, openai_key_verdict, openai_stage_error, soniox_key_verdict,
    soniox_probe_config_json, soniox_stage_error, KeyProbeReply, KeyProbeTarget, OpenAiProbeStage,
    SonioxProbeStage,
};

#[test]
fn probe_target_per_provider() {
    assert_eq!(key_probe_target("soniox"), Ok(KeyProbeTarget::Soniox));
    assert_eq!(key_probe_target("openai-realtime"), Ok(KeyProbeTarget::OpenAi));
    assert_eq!(key_probe_target("local-whisper"), Ok(KeyProbeTarget::NoKeyNeeded));
    assert_eq!(key_probe_target("deepgram"), Err("Provider không xác định: deepgram".to_string()));
}

#[test]
fn soniox_config_escapes_quotes() {
    assert_eq!(
        soniox_probe_config_json("ab\"c"),
        r#"{"api_key":"ab\"c","model":"stt-rt-preview","audio_format":"pcm_s16le","sample_rate":16000,"num_channels":1}"#
    );
}

#[test]
fn soniox_verdicts() {
    let refused = KeyProbeReply::Text(r#"{"error_code":"401","error_message":"bad key"}"#.into());
    assert_eq!(soniox_key_verdict(&refused), Err("Soniox từ chối API key: bad key".to_string()));
    let no_message = KeyProbeReply::Text(r#"{"error_code":"401"}"#.into());
    assert_eq!(soniox_key_verdict(&no_message), Err("Soniox từ chối API key: Lỗi xác thực".to_string()));
    let empty_code = KeyProbeReply::Text(r#"{"error_code":"","tokens":[]}"#.into());
    assert_eq!(soniox_key_verdict(&empty_code), Ok(()));
    let tokens = KeyProbeReply::Text(r#"{"tokens":[]}"#.into());
    assert_eq!(soniox_key_verdict(&tokens), Ok(()));
    assert_eq!(soniox_key_verdict(&KeyProbeReply::Text("not json".into())), Ok(()));
    assert_eq!(
        soniox_key_verdict(&KeyProbeReply::Closed),
        Err("Soniox đóng kết nối sớm — API key có thể không hợp lệ".to_string())
    );
    assert_eq!(
        soniox_key_verdict(&KeyProbeReply::Failed("reset".into())),
        Err("Lỗi kết nối Soniox: reset".to_string())
    );
    assert_eq!(soniox_key_verdict(&KeyProbeReply::Ended), Err("Kết nối Soniox bị đóng".to_string()));
    assert_eq!(soniox_key_verdict(&KeyProbeReply::TimedOut), Ok(()));
}

#[test]
fn openai_verdicts() {
    let refused = KeyProbeReply::Text(r#"{"type":"error","error":{"message":"Incorrect API key"}}"#.into());
    assert_eq!(openai_key_verdict(&refused), Err("OpenAI từ chối: Incorrect API key".to_string()));
    let bare = KeyProbeReply::Text(r#"{"type":"error"}"#.into());
    assert_eq!(openai_key_verdict(&bare), Err("OpenAI từ chối: Lỗi xác thực OpenAI".to_string()));
    let created = KeyProbeReply::Text(r#"{"type":"transcription_session.created"}"#.into());
    assert_eq!(openai_key_verdict(&created), Ok(()));
    let other = KeyProbeReply::Text(r#"{"type":"rate_limits.updated"}"#.into());
    assert_eq!(openai_key_verdict(&other), Ok(()));
    assert_eq!(
        openai_key_verdict(&KeyProbeReply::Failed("HTTP error: 401 Unauthorized".into())),
        Err("API key OpenAI không hợp lệ (lỗi 401)".to_string())
    );
    assert_eq!(
        openai_key_verdict(&KeyProbeReply::Failed("reset".into())),
        Err("Lỗi kết nối OpenAI: reset".to_string())
    );
    assert_eq!(
        openai_key_verdict(&KeyProbeReply::Closed),
        Err("OpenAI đóng kết nối — API key có thể không hợp lệ".to_string())
    );
    assert_eq!(openai_key_verdict(&KeyProbeReply::Ended), Err("Kết nối OpenAI bị đóng".to_string()));
    assert_eq!(openai_key_verdict(&KeyProbeReply::TimedOut), Ok(()));
}

#[test]
fn probe_stage_messages() {
    assert_eq!(soniox_stage_error(SonioxProbeStage::Connect, "dns"), "Không kết nối được tới Soniox: dns");
    assert_eq!(soniox_stage_error(SonioxProbeStage::SendConfig, "x"), "Gửi config thất bại: x");
    assert_eq!(soniox_stage_error(SonioxProbeStage::SendAudio, "x"), "Gửi audio thất bại: x");
    assert_eq!(openai_stage_error(OpenAiProbeStage::Connect, "HTTP 401"), "API key OpenAI không hợp lệ (lỗi 401)");
    assert_eq!(openai_stage_error(OpenAiProbeStage::Connect, "dns"), "Không kết nối được tới OpenAI: dns");
    assert_eq!(openai_stage_error(OpenAiProbeStage::Request, "bad"), "Lỗi tạo request: bad");
    assert_eq!(openai_stage_error(OpenAiProbeStage::Header, "nl"), "API key chứa ký tự không hợp lệ: nl");
}

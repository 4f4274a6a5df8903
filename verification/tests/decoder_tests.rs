use podcast_downloader::decoder::{
    classify_audio_format, configured_encoder_path, conversion_arguments, conversion_result,
    encoder_status_from_outcome, AudioFormat, ProcessOutcome,
};
use podcast_downloader::model::{AudioEncoderStatus, CoreConfig, PodcastError};

#[test]
fn classifies_mp3_from_extension_or_content_type() {
    assert_eq!(classify_audio_format("mp3", None), AudioFormat::Mp3);
    assert_eq!(classify_audio_format("bin", Some("audio/mpeg")), AudioFormat::Mp3);
    assert_eq!(
        classify_audio_format("m4a", Some("audio/mp4")),
        AudioFormat::Other("m4a".to_string())
    );
}

#[test]
fn content_type_overrides_misleading_extension() {
    assert_eq!(
        classify_audio_format("mp3", Some("audio/mp4")),
        AudioFormat::Other("mp3".to_string())
    );
    assert_eq!(classify_audio_format("", None), AudioFormat::Other("unknown".to_string()));
}

#[test]
fn encoder_defaults_to_ffmpeg() {
    let mut config = CoreConfig::new("db".to_string(), "downloads".to_string());
    assert_eq!(configured_encoder_path(&config), "ffmpeg");
    config.mp3_encoder_path = Some("/opt/ffmpeg".to_string());
    assert_eq!(configured_encoder_path(&config), "/opt/ffmpeg");
}

#[test]
fn encoder_status_reads_the_first_output_line() {
    let status = encoder_status_from_outcome(
        "ffmpeg".to_string(),
        ProcessOutcome::Exited {
            success: true,
            stdout: "ffmpeg version 7.0\r\nbuilt with gcc\n".to_string(),
            stderr: String::new(),
            status_text: "exit status: 0".to_string(),
        },
    );
    assert_eq!(
        status,
        AudioEncoderStatus::Available {
            path: "ffmpeg".to_string(),
            version: "ffmpeg version 7.0".to_string()
        }
    );
}

#[test]
fn missing_encoder_is_reported_missing() {
    let status = encoder_status_from_outcome(
        "definitely-missing-ffmpeg.exe".to_string(),
        ProcessOutcome::NotFound,
    );
    assert!(matches!(status, AudioEncoderStatus::Missing { .. }));
}

#[test]
fn failed_encoder_reports_its_error_output_or_status() {
    let status = encoder_status_from_outcome(
        "ffmpeg".to_string(),
        ProcessOutcome::Exited {
            success: false,
            stdout: String::new(),
            stderr: "  broken  \n".to_string(),
            status_text: "exit status: 1".to_string(),
        },
    );
    assert_eq!(
        status,
        AudioEncoderStatus::Error { path: "ffmpeg".to_string(), error: "broken".to_string() }
    );
    let failed = conversion_result(ProcessOutcome::Exited {
        success: false,
        stdout: String::new(),
        stderr: "   ".to_string(),
        status_text: "exit status: 1".to_string(),
    });
    match failed {
        Err(PodcastError::Mp3ConversionFailed(m)) => assert_eq!(m, "encoder exited with exit status: 1"),
        other => panic!("unexpected {other:?}"),
    }
    assert!(matches!(conversion_result(ProcessOutcome::NotFound), Err(PodcastError::Mp3EncoderUnavailable)));
    assert!(conversion_result(ProcessOutcome::Exited {
        success: true,
        stdout: String::new(),
        stderr: String::new(),
        status_text: String::new()
    })
    .is_ok());
}

#[test]
fn conversion_arguments_ask_for_lame_mp3() {
    let args = conversion_arguments("in.m4a", "out.mp3");
    assert_eq!(args, vec!["-y", "-i", "in.m4a", "-vn", "-codec:a", "libmp3lame", "-q:a", "2", "out.mp3"]);
}

use quickclipboard::clipboard_content::{build_hdrop_data, image_clipboard_data};
use base64::Engine;
use quickclipboard::actions::{check_save_destination, prepare_clipboard_content, recognized_text_content, ScreenshotActionError};
use quickclipboard::ai_vision::{
    classify_http_status, effective_prompt, encode_image_for_upload, ensure_vision_model, extract_json_object,
    image_data_url,
    normalized_base_url, recognition_endpoint, retry_after_invalid_reply, validate_configuration, AiVisionError,
    DEFAULT_PROMPT,
};
use quickclipboard::capture::{
    bgra_to_rgba, check_capture_selection, com_initialization_requires_uninitialize, first_window_at_point,
    validate_against_size, CaptureError, CaptureRect, WindowRect, RPC_E_CHANGED_MODE,
};
use quickclipboard::image_store::{
    content_image_id, encode_png, image_raw_format, pin_file_name, stored_screenshot, ImageStoreError, StoredScreenshot,
    IMAGE_ID_LENGTH, INTERNAL_IMAGE_PATH_FORMAT,
};
use quickclipboard::recording::{
    encode_snapshot,
    capture_interval_ms, encode_rgba_frames, validate_result, GifFrameRate, RecordingResult, RecordingSession,
    RECORDING_MAX_FPS, RECORDING_MIN_FPS,
};
use quickclipboard::workflow::{dispatch_step, record_step_result, WorkflowAction, WorkflowActionResult, WorkflowStep};

fn solid_frame(width: u32, height: u32, value: u8) -> Vec<u8> {
    vec![value; (width * height * 4) as usize]
}

#[test]
fn frame_rate_restricted_to_recording_range() {
    assert!(GifFrameRate::new(10).is_ok());
    assert!(GifFrameRate::new(15).is_ok());
    assert!(GifFrameRate::new(9).is_err(), "低于 10fps 必须拒绝");
    assert!(GifFrameRate::new(16).is_err(), "高于 15fps 必须拒绝");
    assert_eq!(GifFrameRate::new(10).unwrap().delay_ms(), 100);
    assert_eq!(GifFrameRate::new(15).unwrap().delay_ms(), 66);
}

#[test]
fn frame_rate_error_names_the_rejected_rate() {
    assert_eq!(GifFrameRate::new(9).err().unwrap(), "GIF 帧率必须在 10~15fps 之间，收到 9");
    assert_eq!(capture_interval_ms(GifFrameRate::new(12).unwrap()), 83);
}

#[test]
fn empty_frame_list_rejected() {
    assert!(encode_rgba_frames(&[], GifFrameRate::new(10).unwrap()).is_err());
}

#[test]
fn mismatched_frame_sizes_rejected() {
    let a = solid_frame(10, 10, 255);
    let b = solid_frame(11, 10, 255);
    let frames = [(10, 10, a.as_slice()), (11, 10, b.as_slice())];
    assert!(encode_rgba_frames(&frames, GifFrameRate::new(10).unwrap()).is_err());
}

#[test]
fn gif_writer_invalid_pixel_length_rejected() {
    let frames = [(2, 2, &[1u8, 2, 3][..])];
    assert!(encode_rgba_frames(&frames, GifFrameRate::new(10).unwrap()).is_err());
}

#[test]
fn single_frame_encodes_with_gif_signature() {
    let frame = solid_frame(2, 2, 200);
    let gif = encode_rgba_frames(&[(2, 2, frame.as_slice())], GifFrameRate::new(10).unwrap()).expect("编码失败");
    assert!(gif.len() > 10);
    assert_eq!(&gif[..6], b"GIF89a", "GIF 必须以 GIF89a 签名开头");
}

#[test]
fn recording_constants_define_bounded_frame_rate() {
    assert_eq!(RECORDING_MIN_FPS, 10);
    assert_eq!(RECORDING_MAX_FPS, 15);
    assert!(RECORDING_MIN_FPS < RECORDING_MAX_FPS);
}

#[test]
fn stop_advances_generation_to_invalidate_in_flight_capture() {
    let mut session = RecordingSession::new();
    let before = session.generation;
    assert!(session.should_capture());
    session.stop();
    assert!(session.stop_flag, "停止必须置停止标志");
    assert_eq!(session.generation, before + 1, "停止必须推进代数");
    assert!(!session.should_capture());
}

#[test]
fn empty_result_rejected() {
    let empty = RecordingResult { gif_bytes: vec![], width: 800, height: 600, rgba: vec![0; 800 * 600 * 4] };
    assert!(empty.is_empty());
    assert!(validate_result(&empty).is_err(), "空 GIF 必须拒绝");
}

#[test]
fn zero_dimension_result_rejected() {
    let zero_side = RecordingResult { gif_bytes: vec![1], width: 0, height: 600, rgba: Vec::new() };
    assert!(validate_result(&zero_side).is_err(), "零尺寸必须拒绝");
}

#[test]
fn storage_invalid_pixel_length_rejected() {
    let malformed = RecordingResult { gif_bytes: vec![1], width: 2, height: 2, rgba: vec![1, 2, 3] };
    assert!(!malformed.is_empty());
    assert!(validate_result(&malformed).is_err(), "像素长度不一致必须拒绝");
}

#[test]
fn valid_result_passes_validation() {
    let okay = RecordingResult { gif_bytes: vec![1], width: 2, height: 2, rgba: vec![0; 16] };
    assert!(validate_result(&okay).is_ok(), "合法结果必须通过");
}

fn sample_stored(absolute: &str) -> StoredScreenshot {
    StoredScreenshot {
        relative_path: "clipboard_images/0123456789abcdef.png".to_string(),
        absolute_path: absolute.to_string(),
        image_id: "0123456789abcdef".to_string(),
        width: 16,
        height: 8,
        png_bytes: 70,
    }
}

#[test]
fn screenshot_action_rejects_empty_save_destination_before_io() {
    let _stored = sample_stored("missing.png");
    let error = check_save_destination("");
    assert!(matches!(error, Err(ScreenshotActionError::Save(_))));
    assert!(check_save_destination("D:\\shots\\a.png").is_ok());
}

#[test]
fn screenshot_history_content_contains_content_addressed_image_reference() {
    let stored = sample_stored("image.png");
    let content = prepare_clipboard_content(&stored);
    assert_eq!(content.content_type, "image");
    assert_eq!(content.image_id.as_deref(), Some("0123456789abcdef"));
    assert!(content.content.contains("clipboard_images/0123456789abcdef.png"));
    assert_eq!(content.raw_formats.len(), 1);
    assert_eq!(
        content.content,
        "files:[{\"path\":\"clipboard_images/0123456789abcdef.png\",\"name\":\"0123456789abcdef.png\",\"size\":70,\"is_directory\":false,\"file_type\":\"image/png\"}]"
    );
}

#[test]
fn recognized_text_must_not_be_blank() {
    assert_eq!(
        recognized_text_content("   ").err().unwrap(),
        ScreenshotActionError::Clipboard("AI 未识别出文本".to_string())
    );
    let ok = recognized_text_content("你好").ok().unwrap();
    assert_eq!(ok.content, "你好");
    assert_eq!(ok.content_type, "text");
    assert_eq!(ScreenshotActionError::Save("x".to_string()).message(), "保存截图失败: x");
}

#[test]
fn base_url_is_normalized_to_openai_compatible_v1_endpoint() {
    assert_eq!(normalized_base_url("https://example.com"), Ok("https://example.com/v1".to_string()));
    assert_eq!(normalized_base_url("https://example.com/v1/"), Ok("https://example.com/v1".to_string()));
    assert!(matches!(normalized_base_url("http://example.com"), Err(AiVisionError::NotConfigured)));
}

#[test]
fn clearly_non_vision_models_are_rejected_before_network_request() {
    assert_eq!(ensure_vision_model("Qwen/Qwen2-7B-Instruct"), Err(AiVisionError::UnsupportedVisionModel));
    assert!(ensure_vision_model("Qwen/Qwen2.5-VL-7B-Instruct").is_ok());
    assert!(ensure_vision_model("gpt-4o").is_ok());
}

#[test]
fn configuration_validation_requires_key_https_endpoint_and_vision_model() {
    assert!(validate_configuration("test-key", "https://api.example.com/v1", "Qwen/Qwen2.5-VL-7B-Instruct").is_ok());
    assert_eq!(validate_configuration("", "https://api.example.com", "gpt-4o"), Err(AiVisionError::NotConfigured));
    assert_eq!(
        validate_configuration("test-key", "http://api.example.com", "gpt-4o"),
        Err(AiVisionError::NotConfigured)
    );
    assert_eq!(
        validate_configuration("test-key", "https://api.example.com", "Qwen/Qwen2-7B-Instruct"),
        Err(AiVisionError::UnsupportedVisionModel)
    );
}

#[test]
fn recognition_endpoint_appends_chat_completions() {
    assert_eq!(
        recognition_endpoint("k", "https://api.example.com", "gpt-4o"),
        Ok("https://api.example.com/v1/chat/completions".to_string())
    );
}

#[test]
fn errors_do_not_include_credentials_or_raw_response() {
    let error = AiVisionError::Request("secret-key raw response".to_string()).message();
    assert!(!error.contains("secret-key"));
    assert!(!error.contains("raw response"));
    assert_eq!(AiVisionError::Timeout.message(), "AI 视觉识别请求超时");
}

#[test]
fn http_status_classification_covers_each_class() {
    assert_eq!(classify_http_status(401), AiVisionError::Unauthorized);
    assert_eq!(classify_http_status(403), AiVisionError::Unauthorized);
    assert_eq!(classify_http_status(429), AiVisionError::RateLimited);
    assert_eq!(classify_http_status(503), AiVisionError::Server(503));
    assert_eq!(classify_http_status(404), AiVisionError::HttpStatus(404));
    assert_eq!(AiVisionError::Server(502).message(), "AI 视觉服务暂时不可用 (HTTP 502)");
}

#[test]
fn json_object_is_extracted_from_a_chatty_reply() {
    assert_eq!(
        extract_json_object("以下是结果：{\"text\":\"你好\",\"blocks\":[]}"),
        Ok("{\"text\":\"你好\",\"blocks\":[]}".to_string())
    );
    assert!(matches!(extract_json_object("无法识别"), Err(AiVisionError::InvalidResponse(_))));
    assert!(retry_after_invalid_reply(0), "首次回复无法解析时重试一次");
    assert!(!retry_after_invalid_reply(1));
}

#[test]
fn prompt_and_data_url_are_built_as_sent() {
    assert_eq!(effective_prompt(None), DEFAULT_PROMPT);
    assert_eq!(effective_prompt(Some("   ")), DEFAULT_PROMPT);
    assert_eq!(effective_prompt(Some("识别")), "识别");
    assert_eq!(image_data_url("image/png", "QUJD"), "data:image/png;base64,QUJD");
}

#[test]
fn only_successful_com_initialization_requires_matching_uninitialization() {
    assert!(com_initialization_requires_uninitialize(0));
    assert!(com_initialization_requires_uninitialize(1));
    assert!(!com_initialization_requires_uninitialize(RPC_E_CHANGED_MODE));
    assert!(!com_initialization_requires_uninitialize(0x80004005u32 as i32));
}

#[test]
fn capture_rect_right_and_bottom_are_saturating() {
    let rect = CaptureRect { left: u32::MAX, top: u32::MAX, width: 4, height: 8 };
    assert_eq!(rect.right(), u32::MAX);
    assert_eq!(rect.bottom(), u32::MAX);
}

#[test]
fn capture_rect_rejects_zero_dimensions_at_public_boundary() {
    let result = check_capture_selection(CaptureRect { left: 0, top: 0, width: 0, height: 10 });
    assert!(matches!(result, Err(CaptureError::InvalidSelection)));
}

#[test]
fn capture_rect_rejects_selection_outside_content_bounds() {
    let rect = CaptureRect { left: 1919, top: 0, width: 2, height: 10 };
    assert!(matches!(rect.validate(1920, 1080), Err(CaptureError::InvalidSelection)));
    assert!(rect.validate(3840, 2160).is_ok());
    assert!(validate_against_size(rect, -1, 1080).is_err());
}

#[test]
fn bgra_rows_are_reordered_and_unpadded() {
    let data = [1u8, 2, 3, 4, 9, 9, 5, 6, 7, 8, 9, 9];
    assert_eq!(bgra_to_rgba(&data, 6, 1, 2), vec![3, 2, 1, 4, 7, 6, 5, 8]);
}

#[test]
fn topmost_window_containing_the_point_is_chosen() {
    let rects = vec![
        WindowRect { left: 0, top: 0, right: 10, bottom: 10 },
        WindowRect { left: 0, top: 0, right: 100, bottom: 100 },
    ];
    assert_eq!(first_window_at_point(&rects, 50, 50), Some(rects[1]));
    assert_eq!(first_window_at_point(&rects, 5, 5), Some(rects[0]));
    assert_eq!(first_window_at_point(&rects, 500, 5), None);
}

#[test]
fn png_encoding_is_content_addressed_and_validates_rgba_length() {
    let first = encode_png(1, 1, &[255, 0, 0, 255]).unwrap();
    let second = encode_png(1, 1, &[255, 0, 0, 255]).unwrap();
    assert_eq!(first, second);
    assert_eq!(content_image_id(&first).len(), IMAGE_ID_LENGTH);
    assert!(matches!(encode_png(1, 1, &[0, 0, 0]), Err(ImageStoreError::InvalidRgbaLength { .. })));
    assert_eq!(
        ImageStoreError::InvalidRgbaLength { expected: 4, actual: 3 }.message(),
        "截图像素数据长度无效: expected=4, actual=3"
    );
}

#[test]
fn stored_screenshot_paths_use_the_content_id() {
    let png = encode_png(1, 1, &[0, 0, 0, 255]).unwrap();
    let stored = stored_screenshot(1, 1, &png, "D:\\data\\clipboard_images");
    assert_eq!(stored.image_id, content_image_id(&png));
    assert_eq!(stored.relative_path, format!("clipboard_images/{}.png", stored.image_id));
    assert_eq!(stored.absolute_path, format!("D:\\data\\clipboard_images\\{}.png", stored.image_id));
    assert_eq!(pin_file_name("abc"), "QC_abc.png");
}

#[test]
fn image_raw_format_keeps_only_relative_path_data() {
    let raw = image_raw_format("clipboard_images/0123456789abcdef.png");
    assert_eq!(raw.format_name, INTERNAL_IMAGE_PATH_FORMAT);
    assert_eq!(raw.raw_data, b"clipboard_images/0123456789abcdef.png");
    assert!(!raw.is_primary);
}

#[test]
fn workflow_collects_successes_and_failures() {
    let step = WorkflowStep::new("teleport");
    assert_eq!(dispatch_step(&step).err().unwrap(), "不支持的截图动作: teleport");
    assert_eq!(dispatch_step(&WorkflowStep::new("copy")), Ok(WorkflowAction::Copy));
    let mut result = WorkflowActionResult::new();
    assert!(result.is_total_failure());
    record_step_result(&mut result, &step, Err("boom".to_string()));
    assert!(result.is_total_failure());
    record_step_result(&mut result, &WorkflowStep::new("copy"), Ok("已复制".to_string()));
    assert!(!result.is_total_failure());
    assert_eq!(result.succeeded, vec!["已复制".to_string()]);
    assert_eq!(result.failed, vec![("teleport".to_string(), "boom".to_string())]);
}

#[test]
fn http_statuses_are_classified_without_response_body() {
    assert_eq!(classify_http_status(401), AiVisionError::Unauthorized);
    assert_eq!(classify_http_status(429), AiVisionError::RateLimited);
    assert_eq!(classify_http_status(502), AiVisionError::Server(502));
    assert_eq!(classify_http_status(400), AiVisionError::HttpStatus(400));
}

#[test]
fn response_parser_accepts_one_constrained_json_extraction() {
    let json = extract_json_object("以下是结果：{\"text\":\"你好\",\"blocks\":[]}").unwrap();
    let value: serde_json::Value = serde_json::from_str(&json).unwrap();
    assert_eq!(value["text"], "你好");
    assert!(matches!(extract_json_object("无法识别"), Err(AiVisionError::InvalidResponse(_))));
}

fn decode_base64(text: &str) -> Vec<u8> {
    base64::engine::general_purpose::STANDARD.decode(text).unwrap()
}

#[test]
fn small_images_use_png_data_before_jpeg_fallback() {
    let (mime, encoded) = encode_image_for_upload(1, 1, &[1, 2, 3, 255]).unwrap();
    let bytes = decode_base64(&encoded);

    assert_eq!(mime, "image/png");
    assert_eq!(&bytes[..8], b"\x89PNG\r\n\x1a\n");
}

#[test]
fn oversized_png_falls_back_to_jpeg_before_rejecting_image() {
    let width: u32 = 2_048;
    let height: u32 = 2_048;
    let mut state = 0x1234_5678_u32;
    let pixels: Vec<u8> = (0..(width * height * 4))
        .map(|_| {
            state = state.wrapping_mul(1_664_525).wrapping_add(1_013_904_223);
            (state >> 24) as u8
        })
        .collect();
    let (mime, encoded) = encode_image_for_upload(width, height, &pixels).unwrap();
    let bytes = decode_base64(&encoded);

    assert_eq!(mime, "image/jpeg");
    assert_eq!(&bytes[..2], b"\xff\xd8");
}

#[test]
fn recording_snapshot_is_encoded_as_png() {
    let result = RecordingResult { gif_bytes: vec![1], width: 1, height: 1, rgba: vec![9, 8, 7, 255] };
    let png = encode_snapshot(&result).unwrap();
    assert_eq!(&png[..8], b"\x89PNG\r\n\x1a\n");
}

#[test]
fn an_earlier_frame_that_cannot_be_encoded_is_reported_before_a_later_size_mismatch() {
    let wide = vec![0u8; 70_000 * 4];
    let small = vec![0u8; 4];
    let frames: Vec<(u32, u32, &[u8])> = vec![(70_000, 1, &wide), (1, 1, &small)];
    let err = encode_rgba_frames(&frames, GifFrameRate::new(10).unwrap()).unwrap_err();
    assert!(err.starts_with("GIF 编码失败: "), "{err}");

    let ok_first = vec![0u8; 4];
    let other = vec![0u8; 8];
    let frames: Vec<(u32, u32, &[u8])> = vec![(1, 1, &ok_first), (2, 1, &other)];
    assert_eq!(encode_rgba_frames(&frames, GifFrameRate::new(10).unwrap()), Err("GIF 各帧尺寸必须一致".to_string()));
}

#[test]
fn image_files_are_decoded_for_every_clipboard_format() {
    let png = encode_png(2, 1, &[10, 20, 30, 255, 40, 50, 60, 128]).unwrap();
    let path = "C:\\pics\\a.png";
    let data = image_clipboard_data(path, &png).unwrap();
    assert_eq!(&data.png[..8], b"\x89PNG\r\n\x1a\n");
    assert_eq!(data.dib.len(), 40 + 8);
    assert_eq!(&data.dib[40..], &[30, 20, 10, 255, 60, 50, 40, 128]);
    assert_eq!(data.hdrop, build_hdrop_data(path));

    let no_ext = image_clipboard_data("C:\\pics\\a", &png).unwrap_err();
    assert!(no_ext.starts_with("读取图片失败: "), "{no_ext}");
    let garbage = image_clipboard_data(path, b"not an image").unwrap_err();
    assert!(garbage.starts_with("读取图片失败: "), "{garbage}");
}

#[test]
fn valid_frames_always_encode_to_a_gif() {
    let a = vec![255u8, 0, 0, 255, 0, 255, 0, 255];
    let b = vec![0u8, 0, 255, 255, 9, 9, 9, 0];
    let frames: Vec<(u32, u32, &[u8])> = vec![(2, 1, &a), (2, 1, &b)];
    let gif = encode_rgba_frames(&frames, GifFrameRate::new(12).unwrap()).unwrap();
    assert_eq!(&gif[..6], b"GIF89a");
}

use space_thumbnails::executor::{given_up, joined, poll, JobOutcome, Wait, POLL_INTERVAL_MS};
use space_thumbnails::model::{
    rgba_buffer_len, GenerationRequest, GenerationResult, PlaceholderKind, RequestError,
    SniffInput,
};
use space_thumbnails::plugins::PluginManager;
use space_thumbnails::providers::thumbnail::{
    compose_over_icon, draws_over_icon, icon_extension, Guid, ThumbnailHandler, ThumbnailProvider,
    THUMBNAIL_BYTES, THUMBNAIL_SIZE,
};
use space_thumbnails::supervisor::{
    conclude, Event, Phase, Reply, Verdict, MAX_SOURCE_BYTES, RENDER_LIMIT_SECS,
};

#[test]
fn limits_are_as_documented() {
    assert_eq!(MAX_SOURCE_BYTES, 314_572_800);
    assert_eq!(RENDER_LIMIT_SECS, 5);
    assert_eq!(POLL_INTERVAL_MS, 20);
    assert_eq!(THUMBNAIL_SIZE, 256);
    assert_eq!(THUMBNAIL_BYTES, 262_144);
}

#[test]
fn poll_joins_sleeps_or_gives_up() {
    let limit: u128 = 5_000_000_000;
    assert_eq!(poll(true, 0, limit), Wait::Join);
    assert_eq!(poll(true, limit + 1, limit), Wait::Join);
    assert_eq!(poll(false, 0, limit), Wait::Sleep(20));
    assert_eq!(poll(false, limit, limit), Wait::Sleep(20));
    assert_eq!(poll(false, limit + 1, limit), Wait::GiveUp);
}

#[test]
fn slow_worker_times_out_at_the_first_look_after_the_limit() {
    let limit: u128 = 100_000_000;
    let mut elapsed: u128 = 0;
    let mut sleeps = 0;
    let outcome: JobOutcome<u8> = loop {
        match poll(false, elapsed, limit) {
            Wait::Join => break joined(Some(1)),
            Wait::GiveUp => break given_up(),
            Wait::Sleep(ms) => {
                sleeps += 1;
                elapsed += (ms as u128) * 1_000_000 + 1;
            }
        }
    };
    assert!(matches!(outcome, JobOutcome::TimedOut));
    assert_eq!(sleeps, 5);
    assert!(elapsed <= limit + 20_000_001);
}

#[test]
fn joined_worker_completed_or_panicked() {
    assert!(matches!(joined(Some(7u8)), JobOutcome::Completed(7)));
    assert!(matches!(joined::<u8>(None), JobOutcome::Panicked));
}

#[test]
fn oversized_stream_is_refused_before_any_generator() {
    let mut handler = ThumbnailHandler::new(".obj".to_string());
    assert_eq!(handler.phase(), Phase::Idle);
    assert_eq!(handler.arrive(MAX_SOURCE_BYTES + 1), Some(PlaceholderKind::TooLarge));
    assert_eq!(handler.phase(), Phase::TooLarge);
    let manager = PluginManager::new();
    // The registry is not asked for a generator any more.
    assert_eq!(handler.classify(&manager, b"v 0 0 0"), None);
    assert_eq!(handler.phase(), Phase::TooLarge);
    let reply = handler.finish(JobOutcome::Completed(Ok(vec![0u8; THUMBNAIL_BYTES])));
    assert!(matches!(reply, Reply::Placeholder(PlaceholderKind::TooLarge)));
    assert_eq!(handler.phase(), Phase::TooLarge);
}

#[test]
fn stream_at_the_ceiling_is_taken() {
    let mut handler = ThumbnailHandler::new("obj".to_string());
    assert_eq!(handler.arrive(MAX_SOURCE_BYTES), None);
    assert_eq!(handler.phase(), Phase::Sniffing);
}

#[test]
fn request_runs_to_a_thumbnail() {
    let manager = PluginManager::new();
    let mut handler = ThumbnailHandler::new(".txt".to_string());
    assert_eq!(handler.arrive(11), None);
    let input = handler.sniff(b"hello world");
    assert_eq!(input.header, b"hello world".to_vec());
    assert_eq!(input.extension, "txt");
    assert_eq!(handler.classify(&manager, b"hello world"), Some(2));
    assert_eq!(handler.phase(), Phase::Dispatched);
    let mut pixels = vec![0u8; THUMBNAIL_BYTES];
    pixels[5] = 9;
    match handler.finish(JobOutcome::Completed(Ok(pixels.clone()))) {
        Reply::Thumbnail(image) => {
            assert_eq!(image.width(), 256);
            assert_eq!(image.height(), 256);
            assert_eq!(image.buffer().len(), 256 * 256 * 4);
            assert_eq!(image.into_raw(), pixels);
        }
        Reply::Placeholder(_) => panic!("a thumbnail was expected"),
    }
    assert_eq!(handler.phase(), Phase::Completed);
}

#[test]
fn request_without_generator_shows_the_error_placeholder() {
    let manager = PluginManager::new();
    let mut handler = ThumbnailHandler::new(".docx".to_string());
    assert_eq!(handler.arrive(4), None);
    assert_eq!(handler.classify(&manager, b"PK\x03\x04"), None);
    assert_eq!(handler.phase(), Phase::CrashedOrError);
    let reply = handler.finish(JobOutcome::Panicked);
    assert!(matches!(reply, Reply::Placeholder(PlaceholderKind::Error)));
}

fn dispatched() -> ThumbnailHandler {
    let manager = PluginManager::new();
    let mut handler = ThumbnailHandler::new(".psd".to_string());
    assert_eq!(handler.arrive(4), None);
    assert_eq!(handler.classify(&manager, b"8BPS"), Some(1));
    handler
}

#[test]
fn each_failure_has_its_placeholder() {
    let mut handler = dispatched();
    let reply = handler.finish(JobOutcome::TimedOut);
    assert!(matches!(reply, Reply::Placeholder(PlaceholderKind::TimedOut)));
    assert_eq!(handler.phase(), Phase::TimedOut);

    let mut handler = dispatched();
    let reply = handler.finish(JobOutcome::Panicked);
    assert!(matches!(reply, Reply::Placeholder(PlaceholderKind::Error)));
    assert_eq!(handler.phase(), Phase::CrashedOrError);

    let mut handler = dispatched();
    let reply = handler.finish(JobOutcome::Completed(Err("no".to_string())));
    assert!(matches!(reply, Reply::Placeholder(PlaceholderKind::Error)));
    assert_eq!(handler.phase(), Phase::CrashedOrError);

    let mut handler = dispatched();
    let reply = handler.finish(JobOutcome::Completed(Ok(vec![0u8; THUMBNAIL_BYTES - 4])));
    assert!(matches!(reply, Reply::Placeholder(PlaceholderKind::Error)));
    assert_eq!(handler.phase(), Phase::CrashedOrError);
}

#[test]
fn result_has_four_bytes_for_each_pixel() {
    let (reply, verdict) = conclude(JobOutcome::Completed(Ok(vec![7u8; 3 * 2 * 4])), 3, 2);
    assert_eq!(verdict, Verdict::Thumbnail);
    match reply {
        Reply::Thumbnail(image) => assert_eq!(image.buffer(), &[7u8; 24][..]),
        Reply::Placeholder(_) => panic!("a thumbnail was expected"),
    }
    for len in [0usize, 23, 25, 48] {
        let (reply, verdict) = conclude(JobOutcome::Completed(Ok(vec![7u8; len])), 3, 2);
        assert_eq!(verdict, Verdict::Failed);
        assert!(matches!(reply, Reply::Placeholder(PlaceholderKind::Error)));
    }
    let (reply, verdict) = conclude(JobOutcome::TimedOut, 3, 2);
    assert_eq!(verdict, Verdict::TimedOut);
    assert!(matches!(reply, Reply::Placeholder(PlaceholderKind::TimedOut)));
    let (reply, verdict) = conclude(JobOutcome::Panicked, 3, 2);
    assert_eq!(verdict, Verdict::Crashed);
    assert!(matches!(reply, Reply::Placeholder(PlaceholderKind::Error)));
    assert!(GenerationResult::new(2, 2, vec![0u8; 16]).is_some());
    assert!(GenerationResult::new(2, 2, vec![0u8; 15]).is_none());
    assert!(GenerationResult::new(0, 2, Vec::new()).is_some());
}

#[test]
fn phases_follow_the_events() {
    assert_eq!(Phase::Idle.step(Event::Arrived(1)), Phase::Sniffing);
    assert_eq!(Phase::Idle.step(Event::Arrived(u64::MAX)), Phase::TooLarge);
    assert_eq!(Phase::Idle.step(Event::Classified(true)), Phase::Idle);
    assert_eq!(Phase::Sniffing.step(Event::Classified(true)), Phase::Dispatched);
    assert_eq!(Phase::Sniffing.step(Event::Classified(false)), Phase::CrashedOrError);
    assert_eq!(Phase::Sniffing.step(Event::Arrived(1)), Phase::Sniffing);
    assert_eq!(Phase::Dispatched.step(Event::Returned(Verdict::Thumbnail)), Phase::Completed);
    assert_eq!(Phase::Dispatched.step(Event::Returned(Verdict::TimedOut)), Phase::TimedOut);
    assert_eq!(Phase::Dispatched.step(Event::Returned(Verdict::Failed)), Phase::CrashedOrError);
    assert_eq!(Phase::Dispatched.step(Event::Returned(Verdict::Crashed)), Phase::CrashedOrError);
    for end in [Phase::Completed, Phase::TimedOut, Phase::TooLarge, Phase::CrashedOrError] {
        assert_eq!(end.step(Event::Arrived(1)), end);
        assert_eq!(end.step(Event::Classified(true)), end);
        assert_eq!(end.step(Event::Returned(Verdict::Thumbnail)), end);
    }
    assert_eq!(Phase::Idle.shown(), Some(PlaceholderKind::Loading));
    assert_eq!(Phase::Dispatched.shown(), Some(PlaceholderKind::Loading));
    assert_eq!(Phase::Completed.shown(), None);
    assert_eq!(Phase::TimedOut.shown(), Some(PlaceholderKind::TimedOut));
    assert_eq!(Phase::TooLarge.shown(), Some(PlaceholderKind::TooLarge));
    assert_eq!(Phase::CrashedOrError.shown(), Some(PlaceholderKind::Error));
}

#[test]
fn request_names_a_source_and_a_size() {
    let made = GenerationRequest::new(None, None, 256, 256, "obj".to_string());
    assert!(matches!(made, Err(RequestError::NoSource)));
    let made = GenerationRequest::new(Some(vec![1]), None, 0, 256, "obj".to_string());
    assert!(matches!(made, Err(RequestError::EmptySize)));
    let made = GenerationRequest::new(None, Some("a.obj".to_string()), 256, 0, "obj".to_string());
    assert!(matches!(made, Err(RequestError::EmptySize)));
    let request =
        GenerationRequest::new(Some(vec![1, 2]), Some("a.obj".to_string()), 4, 8, "obj".to_string())
            .ok()
            .unwrap();
    assert_eq!(request.buffer(), Some(&[1u8, 2][..]));
    assert_eq!(request.filepath(), Some("a.obj"));
    assert_eq!(request.width(), 4);
    assert_eq!(request.height(), 8);
    assert_eq!(request.extension(), "obj");
    assert_eq!(rgba_buffer_len(4, 8), Some(128));
}

#[test]
fn sniff_input_holds_the_first_twenty_bytes() {
    let content: Vec<u8> = (0..50u8).collect();
    let input = SniffInput::new(&content, "...tar.gz");
    assert_eq!(input.header, (0..20u8).collect::<Vec<u8>>());
    assert_eq!(input.extension, "tar.gz");
    let short = SniffInput::new(b"abc", "");
    assert_eq!(short.header, b"abc".to_vec());
    assert_eq!(short.extension, "");
    assert_eq!(SniffInput::new(b"", "..").extension, "");
}

#[test]
fn provider_makes_idle_handlers() {
    let clsid = Guid { data1: 1, data2: 2, data3: 3, data4: 4 };
    let provider = ThumbnailProvider::new(clsid, ".obj".to_string());
    assert_eq!(provider.clsid(), clsid);
    assert_eq!(provider.file_extension, ".obj");
    let handler = provider.create_instance();
    assert_eq!(handler.phase(), Phase::Idle);
    assert_eq!(handler.sniff(b"x").extension, "obj");
}

#[test]
fn text_is_laid_over_the_icon() {
    assert!(draws_over_icon("Text Renderer"));
    assert!(!draws_over_icon("PSD Renderer"));
    let mut icon = vec![0u8; THUMBNAIL_BYTES];
    // First pixel of the icon, in BGRA order: blue 10, green 20, red 30.
    icon[0] = 10;
    icon[1] = 20;
    icon[2] = 30;
    icon[3] = 255;
    let mut text = vec![0u8; THUMBNAIL_BYTES];
    // Second pixel of the text: opaque dark grey.
    text[4] = 50;
    text[5] = 50;
    text[6] = 50;
    text[7] = 255;
    let out = compose_over_icon(Some(&icon), &text);
    assert_eq!(out.len(), THUMBNAIL_BYTES);
    assert_eq!(&out[0..4], &[30, 20, 10, 255]);
    assert_eq!(&out[4..8], &[50, 50, 50, 255]);
    assert_eq!(&out[8..12], &[0, 0, 0, 0]);
    let plain = compose_over_icon(None, &text);
    assert_eq!(&plain[0..4], &[0, 0, 0, 0]);
    assert_eq!(&plain[4..8], &[50, 50, 50, 255]);
}

#[test]
fn only_a_finished_thumbnail_is_stored() {
    assert!(Phase::Dispatched.stores(Event::Returned(Verdict::Thumbnail)));
    assert!(!Phase::Dispatched.stores(Event::Returned(Verdict::Failed)));
    assert!(!Phase::Dispatched.stores(Event::Returned(Verdict::TimedOut)));
    assert!(!Phase::Dispatched.stores(Event::Returned(Verdict::Crashed)));
    assert!(!Phase::Dispatched.stores(Event::Classified(true)));
    assert!(!Phase::Sniffing.stores(Event::Returned(Verdict::Thumbnail)));
    assert!(!Phase::Completed.stores(Event::Returned(Verdict::Thumbnail)));
    assert!(!Phase::TooLarge.stores(Event::Returned(Verdict::Thumbnail)));
}

#[test]
fn icon_is_asked_for_with_a_dot() {
    assert_eq!(icon_extension("txt"), ".txt");
    assert_eq!(icon_extension(".txt"), ".txt");
    assert_eq!(icon_extension(""), ".");
    assert_eq!(icon_extension("..a"), "..a");
}

#[test]
fn thumbnail_is_packed_for_the_shell() {
    let (reply, _) = conclude(JobOutcome::Completed(Ok(vec![1, 2, 3, 4, 5, 6, 7, 8])), 2, 1);
    assert_eq!(reply.words(), Some(vec![0x0401_0203, 0x0805_0607]));
    let (reply, _) = conclude(JobOutcome::TimedOut, 2, 1);
    assert_eq!(reply.words(), None);
}

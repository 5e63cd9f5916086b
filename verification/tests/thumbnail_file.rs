use std::io::Cursor;

use space_thumbnails::model::PlaceholderKind;
use space_thumbnails::providers::thumbnail::Guid;
use space_thumbnails::providers::thumbnail_file::{
    accepts_stream, serve_cached, temp_file_name, CacheLookup, HandlerError,
    ThumbnailFileHandler, ThumbnailFileProvider, MAX_PATH_UNITS,
};
use space_thumbnails::supervisor::Reply;
use space_thumbnails::RendererBackend;

fn png(width: u32, height: u32, colour: [u8; 4]) -> Vec<u8> {
    let image = image::RgbaImage::from_pixel(width, height, image::Rgba(colour));
    let mut out = Cursor::new(Vec::new());
    image.write_to(&mut out, image::ImageFormat::Png).unwrap();
    out.into_inner()
}

fn handler_for(path: &str) -> ThumbnailFileHandler {
    let mut handler = ThumbnailFileHandler::new(RendererBackend::OpenGL);
    handler.set_filepath(path.to_string());
    handler
}

#[test]
fn first_request_shows_loading_and_second_finds_the_thumbnail() {
    let handler = handler_for("C:\\models\\x.obj");
    let cache_file = "C:\\cache\\abc.png".to_string();
    // The cache is empty: a job is started and the placeholder is shown.
    let first = handler.get_thumbnail(CacheLookup::Miss { cache_file: cache_file.clone() });
    let first = first.ok().unwrap();
    assert!(matches!(first.reply, Reply::Placeholder(PlaceholderKind::Loading)));
    let job = first.job.unwrap();
    assert_eq!(job.program, "space-thumbnails-cli.exe");
    assert_eq!(
        job.args,
        vec![
            "C:\\cache\\abc.png",
            "--input",
            "C:\\models\\x.obj",
            "--width",
            "256",
            "--height",
            "256",
            "--api",
            "open-gl"
        ]
    );
    // The job has stored the thumbnail: it is handed out and no job is started.
    let stored = png(800, 800, [10, 200, 30, 255]);
    let second = handler.get_thumbnail(CacheLookup::Hit { cache_file, png: Some(stored) });
    let second = second.ok().unwrap();
    assert!(second.job.is_none());
    let words = second.reply.words().unwrap();
    assert_eq!(words.len(), 256 * 256);
    assert_eq!(words[0], 0xFF0A_C81E);
    assert_eq!(words[256 * 256 - 1], 0xFF0A_C81E);
    match second.reply {
        Reply::Thumbnail(image) => {
            assert_eq!(image.width(), 256);
            assert_eq!(image.height(), 256);
            assert_eq!(image.buffer().len(), 256 * 256 * 4);
            assert_eq!(&image.buffer()[0..4], &[10, 200, 30, 255]);
        }
        Reply::Placeholder(_) => panic!("the cached thumbnail was expected"),
    }
}

#[test]
fn broken_cache_file_is_made_again() {
    let handler = handler_for("x.obj");
    for content in [Some(b"no picture".to_vec()), None] {
        let out = handler
            .get_thumbnail(CacheLookup::Hit { cache_file: "c.png".to_string(), png: content })
            .ok()
            .unwrap();
        assert!(matches!(out.reply, Reply::Placeholder(PlaceholderKind::Loading)));
        assert_eq!(out.job.unwrap().args[0], "c.png");
    }
}

#[test]
fn without_a_cache_nothing_is_started() {
    let handler = handler_for("x.obj");
    let out = handler.get_thumbnail(CacheLookup::Disabled).ok().unwrap();
    assert!(matches!(out.reply, Reply::Placeholder(PlaceholderKind::Loading)));
    assert!(out.job.is_none());
}

#[test]
fn handler_without_a_file_fails() {
    let handler = ThumbnailFileHandler::new(RendererBackend::Vulkan);
    let out = handler.get_thumbnail(CacheLookup::Disabled);
    assert!(matches!(out, Err(HandlerError::NoFile)));
}

#[test]
fn backend_is_named_on_the_command_line() {
    for (backend, name) in [
        (RendererBackend::Default, "default"),
        (RendererBackend::OpenGL, "open-gl"),
        (RendererBackend::Vulkan, "vulkan"),
        (RendererBackend::Metal, "metal"),
    ] {
        let clsid = Guid { data1: 1, data2: 2, data3: 3, data4: 4 };
        let provider = ThumbnailFileProvider::new(clsid, ".obj".to_string(), backend);
        assert_eq!(provider.clsid(), clsid);
        let mut handler = provider.create_instance();
        handler.set_filepath("x.obj".to_string());
        let out = handler
            .get_thumbnail(CacheLookup::Miss { cache_file: "c.png".to_string() })
            .ok()
            .unwrap();
        assert_eq!(out.job.unwrap().args[8], name);
    }
}

#[test]
fn path_is_taken_up_to_the_terminator() {
    let mut handler = ThumbnailFileHandler::new(RendererBackend::Vulkan);
    let mut units: Vec<u16> = "C:\\m\u{f6}del.obj".encode_utf16().collect();
    units.push(0);
    units.extend("rest".encode_utf16());
    assert!(handler.initialize_with_file(&units));
    let out = handler
        .get_thumbnail(CacheLookup::Miss { cache_file: "c.png".to_string() })
        .ok()
        .unwrap();
    assert_eq!(out.job.unwrap().args[2], "C:\\m\u{f6}del.obj");
    // Refused: empty, too long, not valid UTF-16. The path stays.
    assert!(!handler.initialize_with_file(&[0, 65]));
    assert!(!handler.initialize_with_file(&[]));
    assert!(!handler.initialize_with_file(&vec![65u16; MAX_PATH_UNITS + 1]));
    assert!(!handler.initialize_with_file(&[0xD800, 65, 0]));
    let out = handler
        .get_thumbnail(CacheLookup::Miss { cache_file: "c.png".to_string() })
        .ok()
        .unwrap();
    assert_eq!(out.job.unwrap().args[2], "C:\\m\u{f6}del.obj");
    assert!(handler.initialize_with_file(&vec![65u16; MAX_PATH_UNITS]));
}

#[test]
fn stream_over_the_ceiling_is_refused() {
    assert!(accepts_stream(0));
    assert!(accepts_stream(300 * 1024 * 1024));
    assert!(!accepts_stream(300 * 1024 * 1024 + 1));
    assert_eq!(temp_file_name("1234"), "st_temp_1234.step");
}

#[test]
fn cached_thumbnail_is_scaled_to_the_shell_size() {
    let pixels = serve_cached(&png(3, 5, [1, 2, 3, 4])).unwrap();
    assert_eq!(pixels.len(), 256 * 256 * 4);
    assert!(serve_cached(b"").is_none());
}

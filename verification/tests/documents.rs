use std::io::{Cursor, Write};

use space_thumbnails::plugins::docx::{DocxStep, HostTask};
use space_thumbnails::plugins::epub::{find_cover_image, CoverError};
use space_thumbnails::plugins::filament::{
    center_picture, extract_from_archive, try_extract_usdz_image, LoadPlan,
};
use space_thumbnails::plugins::text::TextLine;
use space_thumbnails::plugins::{DocxGenerator, FilamentGenerator, TextGenerator};
use space_thumbnails::RendererBackend;

fn archive(entries: &[(&str, &[u8])]) -> Vec<u8> {
    let mut writer = zip::ZipWriter::new(Cursor::new(Vec::new()));
    let options = zip::write::FileOptions::default()
        .compression_method(zip::CompressionMethod::Stored);
    for (name, data) in entries {
        writer.start_file(*name, options).unwrap();
        writer.write_all(data).unwrap();
    }
    writer.finish().unwrap().into_inner()
}

fn png(width: u32, height: u32, colour: [u8; 4]) -> Vec<u8> {
    let image = image::RgbaImage::from_pixel(width, height, image::Rgba(colour));
    let mut out = Cursor::new(Vec::new());
    image.write_to(&mut out, image::ImageFormat::Png).unwrap();
    out.into_inner()
}

#[test]
fn tags_are_left_out_and_white_space_is_collapsed() {
    assert_eq!(
        DocxGenerator::extract_text_from_xml("<a>Hello</a>  <b>World</b>"),
        " Hello World "
    );
    assert_eq!(DocxGenerator::extract_text_from_xml(""), "");
    assert_eq!(DocxGenerator::extract_text_from_xml("plain text"), "plain text");
    assert_eq!(DocxGenerator::extract_text_from_xml("a\t\n\r b"), "a b");
    assert_eq!(DocxGenerator::extract_text_from_xml("a < b > c"), "a c");
    assert_eq!(DocxGenerator::extract_text_from_xml("x > y"), "x y");
    assert_eq!(DocxGenerator::extract_text_from_xml("<w:t>Gr\u{fc}\u{df}e</w:t>"), " Gr\u{fc}\u{df}e ");
    assert_eq!(DocxGenerator::extract_text_from_xml("<unclosed"), "");
    assert_eq!(DocxGenerator::extract_text_from_xml("a\u{a0}\u{2003}b"), "a b");
}

#[test]
fn stored_preview_is_found_by_name_and_extension() {
    let data = archive(&[
        ("word/document.xml", b"<w:t>Text</w:t>"),
        ("docProps/thumbnail.txt", b"no picture"),
        ("docProps/thumbnail.JPEG", b"the preview"),
        ("docProps/thumbnail.png", b"a later one"),
    ]);
    assert_eq!(DocxGenerator::embedded_thumbnail(&data), Some(b"the preview".to_vec()));
    let none = archive(&[("word/document.xml", b"<w:t>Text</w:t>")]);
    assert_eq!(DocxGenerator::embedded_thumbnail(&none), None);
    assert_eq!(DocxGenerator::embedded_thumbnail(b"no archive"), None);
}

#[test]
fn largest_picture_of_the_document_is_taken() {
    let data = archive(&[
        ("word/media/image1.png", b"12345"),
        ("word/media/image2.jpg", b"1234567890"),
        ("word/media/image3.gif", b"0987654321"),
        ("word/media/movie.mp4", b"much longer than the pictures"),
        ("other/media/image4.png", b"also much longer than the pictures"),
        ("word/media/empty.png", b""),
    ]);
    assert_eq!(DocxGenerator::largest_media(&data), Some(b"1234567890".to_vec()));
    let none = archive(&[("word/media/empty.png", b""), ("word/document.xml", b"x")]);
    assert_eq!(DocxGenerator::largest_media(&none), None);
}

#[test]
fn text_of_the_document_is_read() {
    let data = archive(&[("word/document.xml", b"<w:p><w:t>One</w:t> <w:t>two</w:t></w:p>")]);
    assert_eq!(DocxGenerator::document_text(&data), Some(" One two ".to_string()));
    let invalid = archive(&[("word/document.xml", &[b'a', 0xff, b'b'])]);
    assert_eq!(DocxGenerator::document_text(&invalid), None);
    let none = archive(&[("word/styles.xml", b"<a/>")]);
    assert_eq!(DocxGenerator::document_text(&none), None);
}

#[test]
fn picture_is_scaled_to_fit() {
    let picture = png(40, 20, [10, 20, 30, 255]);
    let pixels = DocxGenerator::fitted_picture(&picture, 10, 10).unwrap();
    // 40 by 20 fits into 10 by 10 as 10 by 5, with two rows left above it.
    assert_eq!(pixels.len(), 10 * 10 * 4);
    assert_eq!(&pixels[0..4], &[0, 0, 0, 0]);
    assert_eq!(&pixels[80..84], &[10, 20, 30, 255]);
    assert_eq!(&pixels[280..284], &[0, 0, 0, 0]);
    assert_eq!(DocxGenerator::fitted_picture(b"no picture", 10, 10), None);
}

#[test]
fn ways_are_tried_in_order() {
    let docx = DocxGenerator;
    // No source at all.
    match docx.generate(None, false, 8, 8) {
        DocxStep::Done(Err(message)) => {
            assert_eq!(message, "No buffer or filepath provided for Docx")
        }
        _ => panic!("a failure was expected"),
    }
    match docx.generate(None, true, 8, 8) {
        DocxStep::Done(Err(message)) => {
            assert_eq!(message, "Failed to open file and no buffer provided")
        }
        _ => panic!("a failure was expected"),
    }
    // The stored preview wins.
    let picture = png(4, 4, [1, 2, 3, 255]);
    let with_preview = archive(&[
        ("docProps/thumbnail.png", &picture),
        ("word/document.xml", b"<w:t>Text</w:t>"),
    ]);
    match docx.generate(Some(&with_preview), false, 4, 4) {
        DocxStep::Done(Ok(pixels)) => assert_eq!(pixels, [1u8, 2, 3, 255].repeat(16)),
        _ => panic!("a thumbnail was expected"),
    }
    // Without it the host is asked for Word, then for LibreOffice.
    let media = png(2, 2, [9, 8, 7, 255]);
    let with_media = archive(&[
        ("word/media/image1.png", &media),
        ("word/document.xml", b"<w:t>Text</w:t>"),
    ]);
    let first = docx.generate(Some(&with_media), false, 2, 2);
    assert!(matches!(first, DocxStep::Ask(HostTask::OfficeConversion)));
    let second = docx.resume(
        Some(&with_media),
        false,
        2,
        2,
        &HostTask::OfficeConversion,
        Err("no Word".to_string()),
    );
    assert!(matches!(second, DocxStep::Ask(HostTask::LibreOfficeConversion)));
    // A conversion that gave an image of another size has failed.
    let short = docx.resume(
        Some(&with_media),
        false,
        2,
        2,
        &HostTask::OfficeConversion,
        Ok(vec![5u8; 12]),
    );
    assert!(matches!(short, DocxStep::Ask(HostTask::LibreOfficeConversion)));
    let short = docx.resume(
        Some(&with_media),
        false,
        2,
        2,
        &HostTask::LibreOfficeConversion,
        Ok(vec![5u8; 20]),
    );
    assert!(matches!(short, DocxStep::Done(Ok(pixels)) if pixels == [9u8, 8, 7, 255].repeat(4)));
    let short = docx.resume(
        Some(&with_media),
        false,
        2,
        2,
        &HostTask::RenderText("x".to_string()),
        Ok(vec![5u8; 20]),
    );
    assert!(matches!(short, DocxStep::Done(Err(m)) if m == "The rendered text has another size than was asked for"));
    let failed = docx.resume(
        Some(&with_media),
        false,
        2,
        2,
        &HostTask::RenderText("x".to_string()),
        Err("no font".to_string()),
    );
    assert!(matches!(failed, DocxStep::Done(Err(m)) if m == "no font"));
    // A stored preview that is not square still fills the size asked for.
    let tall = png(2, 4, [1, 2, 3, 255]);
    let with_tall = archive(&[("docProps/thumbnail.png", &tall)]);
    match docx.generate(Some(&with_tall), false, 4, 4) {
        DocxStep::Done(Ok(pixels)) => {
            assert_eq!(pixels.len(), 4 * 4 * 4);
            assert_eq!(&pixels[0..4], &[0, 0, 0, 0]);
            assert_eq!(&pixels[4..8], &[1, 2, 3, 255]);
        }
        _ => panic!("a thumbnail was expected"),
    }
    // A conversion that worked is the thumbnail.
    let converted = docx.resume(
        Some(&with_media),
        false,
        2,
        2,
        &HostTask::OfficeConversion,
        Ok(vec![5u8; 16]),
    );
    assert!(matches!(converted, DocxStep::Done(Ok(pixels)) if pixels == vec![5u8; 16]));
    // After both conversions failed the largest picture is taken.
    let third = docx.resume(
        Some(&with_media),
        false,
        2,
        2,
        &HostTask::LibreOfficeConversion,
        Err("no LibreOffice".to_string()),
    );
    match third {
        DocxStep::Done(Ok(pixels)) => assert_eq!(pixels, [9u8, 8, 7, 255].repeat(4)),
        _ => panic!("a thumbnail was expected"),
    }
    // Without a picture the text is handed out to be rendered.
    let with_text = archive(&[("word/document.xml", b"<w:t>Text</w:t>")]);
    let fourth = docx.resume(
        Some(&with_text),
        false,
        2,
        2,
        &HostTask::LibreOfficeConversion,
        Err("no LibreOffice".to_string()),
    );
    match fourth {
        DocxStep::Ask(HostTask::RenderText(text)) => assert_eq!(text, " Text "),
        _ => panic!("text was expected"),
    }
    let rendered = docx.resume(
        Some(&with_text),
        false,
        2,
        2,
        &HostTask::RenderText(" Text ".to_string()),
        Ok(vec![1u8; 16]),
    );
    assert!(matches!(rendered, DocxStep::Done(Ok(pixels)) if pixels == vec![1u8; 16]));
    // With nothing in the document no way is left.
    let bare = archive(&[("word/styles.xml", b"<a/>")]);
    let last = docx.resume(
        Some(&bare),
        false,
        2,
        2,
        &HostTask::LibreOfficeConversion,
        Err("no LibreOffice".to_string()),
    );
    match last {
        DocxStep::Done(Err(message)) => {
            assert_eq!(message, "All thumbnail generation methods failed")
        }
        _ => panic!("a failure was expected"),
    }
    let gone = docx.resume(None, true, 2, 2, &HostTask::LibreOfficeConversion, Err(String::new()));
    assert!(matches!(gone, DocxStep::Done(Err(m)) if m == "Failed to re-open for fallback"));
    let gone = docx.resume(None, false, 2, 2, &HostTask::LibreOfficeConversion, Err(String::new()));
    assert!(matches!(gone, DocxStep::Done(Err(m)) if m == "Failed to re-open"));
}

#[test]
fn cover_is_found_by_common_name_or_by_size() {
    let named = archive(&[
        ("OEBPS/images/big.jpg", b"a very large picture that is no cover"),
        ("OEBPS/cover.jpg", b"third choice"),
        ("cover.png", b"first choice"),
    ]);
    assert_eq!(find_cover_image(&named), Ok(b"first choice".to_vec()));
    let by_size = archive(&[
        ("OEBPS/images/small.PNG", b"small"),
        ("OEBPS/images/thumb_large.jpg", b"a thumbnail, though the largest"),
        ("OEBPS/images/large.JPEG", b"the largest"),
        ("OEBPS/text.xhtml", b"<html>much text, and more of it</html>"),
    ]);
    assert_eq!(find_cover_image(&by_size), Ok(b"the largest".to_vec()));
    let none = archive(&[("OEBPS/text.xhtml", b"<html/>"), ("images/empty.png", b"")]);
    assert_eq!(find_cover_image(&none), Err(CoverError::NotFound));
    assert_eq!(find_cover_image(b"no archive"), Err(CoverError::NotAnArchive));
    assert_eq!(CoverError::NotFound.message(), "No cover image found in EPUB");
    assert_eq!(CoverError::NotAnArchive.message(), "Failed to open EPUB zip");
    assert_eq!(CoverError::Unreadable.message(), "Failed to read cover image");
}

#[test]
fn preview_of_a_model_archive_goes_by_name_then_by_size() {
    let data = archive(&[
        ("textures/wood.png", b"a large texture, larger than the rest"),
        ("preview.jpg", b"prev"),
        ("Thumbnail.PNG", b"th"),
        ("model.usdc", b"the model itself, which is no picture"),
    ]);
    assert_eq!(extract_from_archive(&data), Some(b"th".to_vec()));
    let by_size = archive(&[("a.png", b"12"), ("b.png", b"12345"), ("c.jpeg", b"12345")]);
    assert_eq!(try_extract_usdz_image(&by_size), Some(b"12345".to_vec()));
    let first_even_if_empty = archive(&[("a.png", b"")]);
    assert_eq!(extract_from_archive(&first_even_if_empty), Some(Vec::new()));
    let none = archive(&[("model.usdc", b"x")]);
    assert_eq!(extract_from_archive(&none), None);
    assert_eq!(extract_from_archive(b""), None);
}

#[test]
fn model_is_loaded_from_the_best_source() {
    let filament = FilamentGenerator::new(RendererBackend::Vulkan);
    assert!(matches!(filament.plan("usdz", true, true), Ok(LoadPlan::Usdz)));
    assert!(matches!(filament.plan("usdz", true, false), Ok(LoadPlan::Nothing)));
    assert!(matches!(filament.plan("obj", true, true), Ok(LoadPlan::File)));
    assert!(matches!(filament.plan("obj", false, true), Ok(LoadPlan::File)));
    match filament.plan("obj", true, false) {
        Ok(LoadPlan::Memory(hint)) => assert_eq!(hint, "file.obj"),
        _ => panic!("a load from memory was expected"),
    }
    assert_eq!(
        filament.plan("obj", false, false).err().unwrap(),
        "FilamentGenerator requires either buffer or filepath"
    );
}

#[test]
fn usdz_that_does_not_load_shows_its_preview() {
    let filament = FilamentGenerator::new(RendererBackend::Vulkan);
    let picture = png(2, 2, [200, 100, 50, 255]);
    let usdz = archive(&[("model.usdc", b"x"), ("thumbnail.png", &picture)]);
    let pixels = filament.fallback("usdz", Some(&usdz), 4, 4).ok().unwrap();
    assert_eq!(pixels.len(), 4 * 4 * 4);
    assert_eq!(&pixels[0..4], &[200, 100, 50, 255]);
    let failed = filament.fallback("obj", Some(&usdz), 4, 4);
    assert_eq!(failed.err().unwrap(), "Failed to load 3D asset");
    let failed = filament.fallback("usdz", None, 4, 4);
    assert_eq!(failed.err().unwrap(), "Failed to load 3D asset");
    let failed = filament.fallback("usdz", Some(b"no archive"), 4, 4);
    assert_eq!(failed.err().unwrap(), "Failed to load 3D asset");
    // The renderer's picture is the thumbnail where it has the size asked for.
    let drawn = filament.generate(Some(vec![7u8; 64]), "obj", None, 4, 4);
    assert_eq!(drawn, Ok(vec![7u8; 64]));
    let wrong = filament.generate(Some(vec![7u8; 60]), "obj", None, 4, 4);
    assert_eq!(wrong.err().unwrap(), "Failed to load 3D asset");
    let preview = filament.generate(None, "usdz", Some(&usdz), 4, 4).ok().unwrap();
    assert_eq!(preview.len(), 4 * 4 * 4);
    assert_eq!(filament.generate(None, "obj", Some(&usdz), 4, 4).err().unwrap(), "Failed to load 3D asset");
    // A wide picture is centred: 4 by 2 on 4 by 4 leaves a row above and below.
    let wide = png(8, 4, [1, 2, 3, 255]);
    let centred = center_picture(&wide, 4, 4).unwrap();
    assert_eq!(&centred[0..4], &[0, 0, 0, 0]);
    assert_eq!(&centred[16..20], &[1, 2, 3, 255]);
    assert_eq!(&centred[48..52], &[0, 0, 0, 0]);
}

fn shown(lines: &[TextLine]) -> Vec<(i64, i64, String)> {
    lines.iter().map(|l| (l.x, l.y, l.text.clone())).collect()
}

#[test]
fn text_is_laid_out_line_by_line() {
    // 256 by 256 with margins 64 and 76: 104 pixels high, 128 wide:
    // 104 / 12 - 1 = 7 lines of 128 / 6 = 21 bytes.
    let text = "first\r\nsecond line that is much too long to fit\n\nfourth\r";
    let lines = TextGenerator::layout(text, 256, 256, 64, 76);
    assert_eq!(
        shown(&lines),
        vec![
            (64, 76, "first".to_string()),
            (64, 88, "second line that is m".to_string()),
            (64, 100, "".to_string()),
            (64, 112, "fourth\r".to_string()),
        ]
    );
    let many = "1\n2\n3\n4\n5\n6\n7\n8\n9\n";
    let lines = TextGenerator::layout(many, 256, 256, 64, 76);
    assert_eq!(lines.len(), 7);
    assert_eq!(lines[6].text, "7");
    assert_eq!(lines[6].y, 76 + 72);
    assert!(TextGenerator::layout("", 256, 256, 64, 76).is_empty());
    assert!(TextGenerator::layout("text", 256, 20, 64, 0).is_empty());
    assert_eq!(shown(&TextGenerator::layout("text", 4, 256, 64, 76)), vec![(64, 76, String::new())]);
    // A character that does not fit whole is left out: limit 12 / 6 = 2 bytes.
    let cut = TextGenerator::layout("a\u{e4}b", 12, 256, 0, 76);
    assert_eq!(cut[0].text, "a");
    let cut = TextGenerator::layout("\u{e4}b", 12, 256, 0, 76);
    assert_eq!(cut[0].text, "\u{e4}");
}

#[test]
fn invalid_bytes_of_a_text_file_are_replaced() {
    let lines = TextGenerator.generate(&[b'o', b'k', 0xff, b'\n', b'2'], 256, 256, 64, 76);
    assert_eq!(
        shown(&lines),
        vec![(64, 76, "ok\u{fffd}".to_string()), (64, 88, "2".to_string())]
    );
}

/// An archive with one entry, `cover.png`, whose directory record carries
/// the marker of AES encryption while its flags say that it is not
/// encrypted.
fn archive_with_stray_aes_marker() -> Vec<u8> {
    vec![
        80, 75, 3, 4, 20, 0, 0, 0, 0, 0, 0, 0, 33, 0, 172, 42, 147, 216, 2, 0, 0, 0, 2, 0, 0, 0,
        9, 0, 0, 0, 99, 111, 118, 101, 114, 46, 112, 110, 103, 104, 105, 80, 75, 1, 2, 20, 0, 20,
        0, 0, 0, 0, 0, 0, 0, 33, 0, 172, 42, 147, 216, 2, 0, 0, 0, 2, 0, 0, 0, 9, 0, 11, 0, 0, 0,
        0, 0, 0, 0, 0, 0, 0, 0, 0, 0, 0, 0, 99, 111, 118, 101, 114, 46, 112, 110, 103, 1, 153, 7,
        0, 2, 0, 65, 69, 1, 0, 0, 80, 75, 5, 6, 0, 0, 0, 0, 1, 0, 1, 0, 66, 0, 0, 0, 41, 0, 0, 0,
        0, 0,
    ]
}

#[test]
fn entry_that_cannot_be_opened_is_passed_over() {
    let data = archive_with_stray_aes_marker();
    assert_eq!(find_cover_image(&data), Err(CoverError::NotFound));
    assert_eq!(extract_from_archive(&data), None);
    assert_eq!(DocxGenerator::embedded_thumbnail(&data), None);
    assert_eq!(DocxGenerator::largest_media(&data), None);
    assert_eq!(DocxGenerator::document_text(&data), None);
}

use space_thumbnails::plugins::{
    DocxGenerator, EpubGenerator, FilamentGenerator, Generator, HdriGenerator, PdfGenerator,
    PluginManager, PsdGenerator, TextGenerator, ThumbnailGenerator,
};
use space_thumbnails::renderer::{
    has_external_resource, is_base64_data_uri, is_binary_gltf, route_file, route_memory,
    AssetRoute, Viewport,
};
use space_thumbnails::RendererBackend;

fn gltf_header() -> Vec<u8> {
    let mut header = b"glTF".to_vec();
    header.extend_from_slice(&[0u8; 12]);
    header
}

#[test]
fn gltf_content_named_step_goes_to_the_model_generator() {
    let manager = PluginManager::new();
    let header = gltf_header();
    let generator = manager.get_generator(&header, "step").unwrap();
    assert_eq!(generator.name(), "Filament 3D Renderer");
    assert_eq!(manager.select(&header, "step"), Some(0));
}

#[test]
fn gltf_content_named_step_takes_the_gltf_loader() {
    let header = gltf_header();
    assert_eq!(route_file(&header, Some("step")), AssetRoute::Gltf);
    assert_eq!(route_memory(&header, Some("step")), AssetRoute::Gltf);
    assert!(is_binary_gltf(&header, Some("step")));
}

#[test]
fn step_file_without_gltf_content_takes_the_converter() {
    assert_eq!(route_file(b"ISO-10303-21;", Some("obj")), AssetRoute::Cad);
    assert_eq!(route_file(&[0u8; 12], Some("step")), AssetRoute::Cad);
    assert_eq!(route_file(&[0u8; 12], Some("stp")), AssetRoute::Cad);
    assert_eq!(route_file(&[0u8; 12], Some("igs")), AssetRoute::Cad);
    assert_eq!(route_file(&[0u8; 12], Some("iges")), AssetRoute::Cad);
    assert_eq!(route_file(&[0u8; 12], Some("obj")), AssetRoute::Assimp);
    assert_eq!(route_file(&[0u8; 12], None), AssetRoute::Assimp);
    assert_eq!(route_file(b"", None), AssetRoute::Assimp);
}

#[test]
fn memory_route_goes_by_content_then_by_name() {
    assert_eq!(route_memory(b"v 0 0 0", Some("gltf")), AssetRoute::Gltf);
    assert_eq!(route_memory(b"v 0 0 0", Some("glb")), AssetRoute::Gltf);
    assert_eq!(route_memory(b"v 0 0 0", Some("GLB")), AssetRoute::Assimp);
    assert_eq!(route_memory(b"v 0 0 0", Some("obj")), AssetRoute::Assimp);
    assert_eq!(route_memory(b"v 0 0 0", None), AssetRoute::Assimp);
    assert!(is_binary_gltf(b"{}", Some("glb")));
    assert!(!is_binary_gltf(b"{}", Some("gltf")));
    assert!(!is_binary_gltf(b"{}", None));
}

#[test]
fn pdf_content_named_ai_is_passed_over_by_the_pdf_generator() {
    let pdf = PdfGenerator;
    assert!(!pdf.validate(b"%PDF-1.7 and more", "ai"));
    assert!(!pdf.validate(b"%PDF-1.7 and more", "AI"));
    assert!(pdf.validate(b"%PDF-1.7 and more", "pdf"));
    assert!(pdf.validate(b"%PDF-1.7 and more", "txt"));
    assert!(pdf.validate(b"not a pdf", "PDF"));
    assert!(!pdf.validate(b"not a pdf", "ai"));
    assert!(!pdf.validate(b"%PD", "doc"));
    let generators = vec![
        Generator::Pdf(PdfGenerator),
        Generator::Filament(FilamentGenerator::new(RendererBackend::Default)),
        Generator::Text(TextGenerator),
    ];
    let manager = PluginManager::with_generators(generators);
    assert_eq!(manager.len(), 3);
    // The PDF generator stands first and passes the file over; a later
    // generator that accepts it gets it.
    let mut header = b"glTF".to_vec();
    header.extend_from_slice(b"%PDF");
    assert_eq!(manager.select(b"%PDF-1.4", "pdf"), Some(0));
    assert_eq!(manager.select(b"%PDF-1.4", "ai"), None);
    assert_eq!(manager.select(b"%PDF-1.4", "txt"), Some(0));
    assert_eq!(manager.select(b"plain", "txt"), Some(2));
    assert_eq!(manager.select(&header, "ai"), Some(1));
}

#[test]
fn standard_registry_asks_in_order() {
    let manager = PluginManager::with_backend(RendererBackend::OpenGL);
    assert_eq!(manager.len(), 3);
    assert_eq!(manager.select(b"8BPS\x00\x01", "txt"), Some(1));
    assert_eq!(manager.select(b"8BPS\x00\x01", "obj"), Some(1));
    assert_eq!(manager.select(b"hello", "txt"), Some(2));
    assert_eq!(manager.select(b"hello", "psd"), Some(1));
    assert_eq!(manager.select(b"hello", "docx"), None);
    assert!(manager.get_generator(b"hello", "unknown").is_none());
    assert_eq!(manager.get_generator(b"hello", "md").unwrap().name(), "Text Renderer");
    assert_eq!(manager.get_generator(b"8BPS", "").unwrap().name(), "PSD Renderer");
}

#[test]
fn each_generator_takes_its_files() {
    let filament = FilamentGenerator::new(RendererBackend::Vulkan);
    for ext in [
        "glb", "gltf", "obj", "fbx", "dae", "ply", "stl", "3ds", "stp", "step", "igs", "iges",
        "x3d", "x3db", "usdz",
    ] {
        assert!(filament.validate(b"", ext));
    }
    assert!(!filament.validate(b"", "OBJ"));
    assert!(!filament.validate(b"glT", "bin"));
    assert!(filament.validate(b"glTF", "bin"));
    assert_eq!(filament.name(), "Filament 3D Renderer");

    let text = TextGenerator;
    for ext in ["txt", "rs", "json", "toml", "md", "xml", "log", "ini", "cfg", "yaml", "yml"] {
        assert!(text.validate(b"glTF", ext));
    }
    assert!(!text.validate(b"", "TXT"));
    assert!(!text.validate(b"", ""));

    let psd = PsdGenerator;
    assert!(psd.validate(b"", "psd"));
    assert!(psd.validate(b"8BPS", "jpg"));
    assert!(!psd.validate(b"8BP", "jpg"));
    assert!(!psd.validate(b"", "PSD"));

    let docx = DocxGenerator;
    assert!(docx.validate(b"", "docx"));
    assert!(docx.validate(b"", "DocX"));
    assert!(!docx.validate(b"PK", "doc"));
    assert_eq!(docx.name(), "Word (Docx) Extractor");

    let epub = EpubGenerator;
    assert!(epub.validate(b"", "EPUB"));
    assert!(!epub.validate(b"", "epub3"));
    assert_eq!(epub.name(), "EPUB Renderer");

    let hdri = HdriGenerator;
    assert!(hdri.validate(b"", "hdr"));
    assert!(hdri.validate(b"", "exr"));
    assert!(hdri.validate(b"", "hdri"));
    assert!(hdri.validate(b"#?RADIANCE\n", "bin"));
    assert!(hdri.validate(b"#?RGBE file", "bin"));
    assert!(!hdri.validate(b"#?RGBE", "bin"));
    assert!(hdri.validate(&[0x76, 0x2f, 0x31, 0x01], "bin"));
    assert!(!hdri.validate(&[0x76, 0x2f, 0x31], "bin"));
    assert_eq!(hdri.name(), "HDRI Renderer");
    assert_eq!(PdfGenerator.name(), "PDF Renderer");
}

#[test]
fn data_uris_are_told_from_outside_resources() {
    assert!(is_base64_data_uri("data:image/png;base64,AAAA"));
    assert!(!is_base64_data_uri("data:image/png,AAAA"));
    assert!(!is_base64_data_uri("textures/wood.png;base64,"));
    assert!(!is_base64_data_uri(""));
    let inside = vec!["data:a;base64,B".to_string()];
    let mixed = vec!["data:a;base64,B".to_string(), "wood.png".to_string()];
    assert!(!has_external_resource(&inside));
    assert!(has_external_resource(&mixed));
    assert!(!has_external_resource(&Vec::new()));
}

#[test]
fn screenshot_takes_four_bytes_for_each_pixel() {
    let viewport = Viewport { left: 0, bottom: 0, width: 800, height: 600 };
    assert_eq!(viewport.get_size(), (800, 600));
    assert_eq!(viewport.get_screenshot_size_in_byte(), Some(800 * 600 * 4));
    let empty = Viewport { left: 0, bottom: 0, width: 0, height: 600 };
    assert_eq!(empty.get_screenshot_size_in_byte(), Some(0));
}

#[test]
fn psd_content_named_obj_goes_to_the_psd_generator() {
    let manager = PluginManager::new();
    let header = [b"8BPS".as_slice(), &[0u8; 16]].concat();
    let name = manager.get_generator(&header, "obj").map(|g| g.name());
    assert_eq!(name, Some("PSD Renderer"));
    // Without a signature the name decides, in the order of the registry.
    assert_eq!(manager.get_generator(&[0u8; 20], "obj").map(|g| g.name()), Some("Filament 3D Renderer"));
    // A signature counts before every extension, also one of a later generator.
    assert_eq!(manager.get_generator(&header, "txt").map(|g| g.name()), Some("PSD Renderer"));
    assert_eq!(manager.get_generator(&header, "psd").map(|g| g.name()), Some("PSD Renderer"));
    assert_eq!(manager.get_generator(&header, "").map(|g| g.name()), Some("PSD Renderer"));
}

#[test]
fn content_is_asked_before_any_extension() {
    // The text generator stands first and takes the extension; the file
    // still goes to the generator that knows its content.
    let generators = vec![
        Generator::Text(TextGenerator),
        Generator::Docx(DocxGenerator),
        Generator::Hdri(HdriGenerator),
        Generator::Pdf(PdfGenerator),
        Generator::Psd(PsdGenerator),
    ];
    let manager = PluginManager::with_generators(generators);
    assert_eq!(manager.select(b"%PDF-1.4", "txt"), Some(3));
    assert_eq!(manager.select(b"8BPS", "txt"), Some(4));
    assert_eq!(manager.select(b"#?RADIANCE\n", "txt"), Some(2));
    assert_eq!(manager.select(b"plain", "txt"), Some(0));
    // A PDF signature under the name of an Illustrator file: the PDF
    // generator passes, and the file goes by its extension.
    assert_eq!(manager.select(b"%PDF-1.4", "ai"), None);
    assert_eq!(manager.select(b"%PDF-1.4", "docx"), Some(3));
    assert_eq!(manager.get(3).map(|g| g.name()), Some("PDF Renderer"));
    assert!(manager.get(5).is_none());
}

#[test]
fn each_generator_knows_its_signature() {
    assert!(FilamentGenerator::new(RendererBackend::Default).sniff(b"glTF\x02"));
    assert!(!FilamentGenerator::new(RendererBackend::Default).sniff(b"glT"));
    assert!(PsdGenerator.sniff(b"8BPS"));
    assert!(!PsdGenerator.sniff(b"8BP"));
    assert!(PdfGenerator.sniff(b"%PDF-"));
    assert!(!PdfGenerator.sniff(b"PDF"));
    assert!(HdriGenerator.sniff(b"#?RADIANCE\n"));
    assert!(HdriGenerator.sniff(b"#?RGBE and more"));
    assert!(!HdriGenerator.sniff(b"#?RGBE"));
    assert!(HdriGenerator.sniff(&[0x76, 0x2f, 0x31, 0x01]));
    assert!(!TextGenerator.sniff(b"glTF"));
    assert!(!DocxGenerator.sniff(b"PK\x03\x04"));
    assert!(!EpubGenerator.sniff(b"PK\x03\x04"));
}

use speakoflow::catalog::{CatalogCapabilities, CatalogFile, CatalogModel};

fn file(name: &str, quant: &str, size: u64) -> CatalogFile {
    CatalogFile { filename: name.to_string(), quant: quant.to_string(), size_bytes: size }
}

fn model(default_quant: &str, files: Vec<CatalogFile>) -> CatalogModel {
    CatalogModel {
        id: "handy-computer/parakeet-unified-en-0.6b-gguf".to_string(),
        slug: "parakeet-unified-en-0.6b".to_string(),
        name: "Parakeet".to_string(),
        architecture: String::new(),
        family: String::new(),
        description: String::new(),
        language_count: 1,
        languages: vec!["en".to_string()],
        capabilities: CatalogCapabilities::default(),
        speed_score: 90,
        accuracy_score: 80,
        files,
        default_quant: default_quant.to_string(),
        recommended: true,
        recommended_rank: Some(1),
    }
}

#[test]
fn the_default_file_is_the_default_quantization() {
    let m = model(
        "Q8_0",
        vec![file("a-f16.gguf", "F16", 10), file("a-q8.gguf", "Q8_0", 5), file("b-q8.gguf", "Q8_0", 6)],
    );
    assert_eq!(m.default_file().map(|f| f.filename.as_str()), Some("a-q8.gguf"));
}

#[test]
fn an_unlisted_default_falls_back_to_the_first_file() {
    let m = model("Q4_K", vec![file("a-f16.gguf", "F16", 10), file("a-q8.gguf", "Q8_0", 5)]);
    assert_eq!(m.default_file().map(|f| f.filename.as_str()), Some("a-f16.gguf"));
    assert!(model("Q8_0", Vec::new()).default_file().is_none());
}

#[test]
fn files_download_from_the_model_repository() {
    let m = model("Q8_0", vec![file("parakeet-q8_0.gguf", "Q8_0", 731_357_568)]);
    let f = m.default_file().unwrap();
    assert_eq!(
        m.download_url(f),
        "https://huggingface.co/handy-computer/parakeet-unified-en-0.6b-gguf/resolve/main/parakeet-q8_0.gguf"
    );
    let caps = CatalogCapabilities::default();
    assert!(!caps.streaming && !caps.translate && !caps.lang_detect && caps.timestamps.is_empty());
}

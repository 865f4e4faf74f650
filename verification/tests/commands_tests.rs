use tiny_decision_core::commands::{
    default_search_filter, hub_search_url, marketplace_search_url, marketplace_template_url, model_short_name, plan_batch_chunks, readme_raw_url, BatchConfig,
    CommandError, DownloadHandle, HfModelSummary, LoadModelConfig, ModelFile, PipelineSaveResult, SearchFilter,
};

#[test]
fn command_errors() {
    let e = CommandError::new("LOAD_FAILED", "no such file".to_string());
    assert_eq!(e.code, "LOAD_FAILED");
    assert_eq!(e.message, "no such file");
    let i = CommandError::internal("boom".to_string());
    assert_eq!(i.code, "INTERNAL_ERROR");
    assert_eq!(i.message, "boom");
}

#[test]
fn default_filter_is_popular_gguf_text_generation() {
    let f = default_search_filter();
    assert_eq!(f.pipeline_tag.as_deref(), Some("text-generation"));
    assert_eq!(f.language, None);
    assert_eq!(f.library.as_deref(), Some("gguf"));
    assert_eq!(f.sort.as_deref(), Some("downloads"));
    assert_eq!(f.limit, Some(20));
}

#[test]
fn search_url_with_defaults_and_encoding() {
    let f = SearchFilter { pipeline_tag: None, language: None, library: None, sort: None, limit: None };
    assert_eq!(
        hub_search_url("phi 2 & co/é", &f),
        "https://huggingface.co/api/models?search=phi%202%20%26%20co%2F%C3%A9&sort=downloads&limit=20"
    );
}

#[test]
fn search_url_with_every_filter() {
    let f = SearchFilter {
        pipeline_tag: Some("text-classification".to_string()),
        language: Some("en".to_string()),
        library: Some("gguf".to_string()),
        sort: Some("likes".to_string()),
        limit: Some(105),
    };
    assert_eq!(
        hub_search_url("bert-base_v1.0~x", &f),
        "https://huggingface.co/api/models?search=bert-base_v1.0~x&sort=likes&limit=105&pipeline_tag=text-classification&language[]=en"
    );
}

#[test]
fn short_names_and_readme_urls() {
    assert_eq!(model_short_name("microsoft/phi-2"), "phi-2");
    assert_eq!(model_short_name("a/b/c"), "c");
    assert_eq!(model_short_name("plain"), "plain");
    assert_eq!(model_short_name("trailing/"), "");
    assert_eq!(readme_raw_url("microsoft/phi-2"), "https://huggingface.co/microsoft/phi-2/raw/main/README.md");
}

#[test]
fn model_files_recognise_gguf() {
    let f = ModelFile::new("phi-2.Q4_K_M.gguf".to_string(), 1600);
    assert!(f.is_gguf);
    assert_eq!(f.size_bytes, 1600);
    assert!(!ModelFile::new("config.json".to_string(), 10).is_gguf);
    assert!(!ModelFile::new("MODEL.GGUF".to_string(), 10).is_gguf);
}

#[test]
fn download_handle_starts_empty() {
    let h = DownloadHandle::started("d1".to_string(), "m".to_string(), "f.gguf".to_string());
    assert_eq!(h.download_id, "d1");
    assert_eq!(h.status, "downloading");
    assert_eq!(h.bytes_downloaded, 0);
    assert_eq!(h.total_bytes, 0);
}

#[test]
fn load_defaults_and_context_size() {
    let c = LoadModelConfig::defaults();
    assert_eq!(c.n_ctx, Some(2048));
    assert_eq!(c.n_threads, Some(4));
    assert_eq!(c.n_gpu_layers, Some(0));
    assert_eq!(c.use_mmap, Some(true));
    assert_eq!(c.use_mlock, Some(false));
    assert_eq!(c.seed, Some(42));
    assert_eq!(c.context_size(), 2048);
    let custom = LoadModelConfig { n_ctx: Some(8192), n_threads: None, n_gpu_layers: None, use_mmap: None, use_mlock: None, seed: None };
    assert_eq!(custom.context_size(), 8192);
    let none = LoadModelConfig { n_ctx: None, n_threads: None, n_gpu_layers: None, use_mmap: None, use_mlock: None, seed: None };
    assert_eq!(none.context_size(), 2048);
}

#[test]
fn batch_defaults() {
    let b = BatchConfig::defaults();
    assert_eq!(b.concurrency, Some(4));
    assert_eq!(b.calibrate, Some(true));
    assert_eq!(b.output_format.as_deref(), Some("jsonl"));
}

#[test]
fn batch_chunks_cover_all_rows_in_order() {
    assert_eq!(plan_batch_chunks(10, 4), vec![(0, 4), (4, 8), (8, 10)]);
    assert_eq!(plan_batch_chunks(8, 4), vec![(0, 4), (4, 8)]);
    assert_eq!(plan_batch_chunks(3, 5), vec![(0, 3)]);
    assert!(plan_batch_chunks(0, 4).is_empty());
}

#[test]
fn saving_bumps_the_version() {
    let r = PipelineSaveResult::saved("p1".to_string(), 3, "2024-01-01T00:00:00Z".to_string());
    assert_eq!(r.pipeline_id, "p1");
    assert_eq!(r.version, 4);
    assert_eq!(r.saved_at, "2024-01-01T00:00:00Z");
}

#[test]
fn marketplace_urls() {
    assert_eq!(
        marketplace_search_url("loan risk"),
        "https://api.tiny-decision.com/marketplace/search?q=loan%20risk"
    );
    assert_eq!(marketplace_template_url("t-9"), "https://api.tiny-decision.com/marketplace/templates/t-9");
}

#[test]
fn hub_rows_become_summaries() {
    let m = HfModelSummary::from_hub_row(
        Some("microsoft/phi-2"),
        Some("microsoft"),
        Some(1200),
        Some(4_294_967_297),
        Some(vec![Some("gguf".to_string()), None, Some("en".to_string())]),
        Some("text-generation".to_string()),
        Some(true),
        Some("2024-01-01"),
    );
    assert_eq!(m.model_id, "microsoft/phi-2");
    assert_eq!(m.name, "phi-2");
    assert_eq!(m.author, "microsoft");
    assert_eq!(m.downloads, 1200);
    assert_eq!(m.likes, 1);
    assert_eq!(m.tags, vec!["gguf".to_string(), "en".to_string()]);
    assert_eq!(m.pipeline_tag.as_deref(), Some("text-generation"));
    assert!(m.private);
    assert_eq!(m.last_modified, "2024-01-01");
}

#[test]
fn hub_rows_with_missing_fields_get_defaults() {
    let m = HfModelSummary::from_hub_row(None, None, None, None, None, None, None, None);
    assert_eq!(m.model_id, "");
    assert_eq!(m.name, "");
    assert_eq!(m.author, "");
    assert_eq!(m.downloads, 0);
    assert_eq!(m.likes, 0);
    assert!(m.tags.is_empty());
    assert_eq!(m.pipeline_tag, None);
    assert!(!m.private);
    assert_eq!(m.last_modified, "");
}

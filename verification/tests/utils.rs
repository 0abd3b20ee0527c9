use lmoclient::models::ModelInfo;
use lmoclient::utils::{
    format_duration, format_model_info, format_number, table_row, truncate_text, OutputFormat,
};

#[test]
fn durations() {
    assert_eq!(format_duration(0), "0s");
    assert_eq!(format_duration(59), "59s");
    assert_eq!(format_duration(60), "1m 0s");
    assert_eq!(format_duration(3599), "59m 59s");
    assert_eq!(format_duration(3600), "1h 0m 0s");
    assert_eq!(format_duration(3661), "1h 1m 1s");
    assert_eq!(format_duration(86400), "24h 0m 0s");
    assert_eq!(format_duration(u64::MAX), "5124095576030431h 0m 15s");
}

#[test]
fn numbers_with_commas() {
    assert_eq!(format_number(0), "0");
    assert_eq!(format_number(999), "999");
    assert_eq!(format_number(1000), "1,000");
    assert_eq!(format_number(1001), "1,001");
    assert_eq!(format_number(12345), "12,345");
    assert_eq!(format_number(1000000), "1,000,000");
    assert_eq!(format_number(1020030), "1,020,030");
    assert_eq!(format_number(u64::MAX), "18,446,744,073,709,551,615");
}

#[test]
fn model_with_everything() {
    let model = ModelInfo {
        id: "org/model".to_string(),
        author: Some("org".to_string()),
        downloads: 1234567,
        pipeline_tag: Some("text-generation".to_string()),
        library_name: Some("transformers".to_string()),
        tags: vec!["gguf".to_string(), "mlx".to_string(), "q4".to_string()],
        created_at: "2024-01-01".to_string(),
        updated_at: "2024-02-02".to_string(),
    };
    assert_eq!(
        format_model_info(&model),
        "ID: org/model\nAuthor: org\nDownloads: 1,234,567\nPipeline: text-generation\nLibrary: transformers\nTags: gguf, mlx, q4\nCreated: 2024-01-01\nUpdated: 2024-02-02"
    );
}

#[test]
fn model_with_the_least() {
    let model = ModelInfo {
        id: "m".to_string(),
        author: None,
        downloads: 0,
        pipeline_tag: None,
        library_name: None,
        tags: vec![],
        created_at: "c".to_string(),
        updated_at: "u".to_string(),
    };
    assert_eq!(format_model_info(&model), "ID: m\nDownloads: 0\nCreated: c\nUpdated: u");
    let one_tag = ModelInfo { tags: vec!["t".to_string()], ..model };
    assert_eq!(
        format_model_info(&one_tag),
        "ID: m\nDownloads: 0\nTags: t\nCreated: c\nUpdated: u"
    );
}

#[test]
fn texts_are_truncated_with_dots() {
    assert_eq!(truncate_text("hello", 5), "hello");
    assert_eq!(truncate_text("hello", 10), "hello");
    assert_eq!(truncate_text("hello world", 8), "hello...");
    assert_eq!(truncate_text("hello", 4), "h...");
    assert_eq!(truncate_text("hello", 3), "...");
    assert_eq!(truncate_text("hello", 0), "...");
    assert_eq!(truncate_text("", 0), "");
    assert_eq!(truncate_text("héllo wörld", 6), "hé...");
    assert_eq!(truncate_text("éé", 4), "éé");
}

#[test]
fn table_rows() {
    assert_eq!(table_row(&vec![]), "");
    assert_eq!(table_row(&vec!["a".to_string()]), "a");
    assert_eq!(table_row(&vec!["a".to_string(), String::new(), "c".to_string()]), "a |  | c");
}

#[test]
fn output_format_names() {
    assert_eq!(OutputFormat::from_name("json"), OutputFormat::Json);
    assert_eq!(OutputFormat::from_name("JSON"), OutputFormat::Json);
    assert_eq!(OutputFormat::from_name("yaml"), OutputFormat::Yaml);
    assert_eq!(OutputFormat::from_name("Yml"), OutputFormat::Yaml);
    assert_eq!(OutputFormat::from_name("table"), OutputFormat::Table);
    assert_eq!(OutputFormat::from_name(""), OutputFormat::Table);
    assert_eq!(OutputFormat::from_name("json "), OutputFormat::Table);
}

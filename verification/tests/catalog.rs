use lmoclient::catalog::{
    filter_models, precedes, query_keeps, select_models, sort_models, text_mentions, ModelQuery,
    SortKey,
};
use lmoclient::models::ModelInfo;

fn model(id: &str, author: Option<&str>, downloads: u64, created: &str, tags: &[&str]) -> ModelInfo {
    ModelInfo {
        id: id.to_string(),
        author: author.map(|a| a.to_string()),
        downloads,
        pipeline_tag: if downloads % 2 == 0 { Some("Text-Generation".to_string()) } else { None },
        library_name: None,
        tags: tags.iter().map(|t| t.to_string()).collect(),
        created_at: created.to_string(),
        updated_at: String::new(),
    }
}

fn models() -> Vec<ModelInfo> {
    vec![
        model("org/Llama", Some("Org"), 10, "2024-03", &["GGUF", "chat"]),
        model("lab/mistral", None, 30, "2023-01", &[]),
        model("org/phi", Some("org"), 10, "2024-01", &["mlx"]),
        model("zed/llama-2", Some("Zed"), 5, "2022-09", &["gguf-q4"]),
        model("abc/tiny", Some("abc"), 30, "2024-03", &["tiny"]),
    ]
}

fn query() -> ModelQuery {
    ModelQuery {
        search: None,
        author: None,
        tags: None,
        pipeline: None,
        sort: SortKey::Unsorted,
        ascending: false,
        limit: 20,
    }
}

fn ids(models: &[ModelInfo]) -> Vec<&str> {
    models.iter().map(|m| m.id.as_str()).collect()
}

#[test]
fn sort_key_names() {
    assert_eq!(SortKey::from_name("downloads"), SortKey::Downloads);
    assert_eq!(SortKey::from_name("author"), SortKey::Author);
    assert_eq!(SortKey::from_name("created"), SortKey::Created);
    assert_eq!(SortKey::from_name("Downloads"), SortKey::Unsorted);
    assert_eq!(SortKey::from_name(""), SortKey::Unsorted);
}

#[test]
fn mentions_ignore_letter_case() {
    assert!(text_mentions("Org/LLAMA", "llama"));
    assert!(text_mentions("org/llama", "LLaMa"));
    assert!(text_mentions("ÉCOLE", "école"));
    assert!(text_mentions("abc", ""));
    assert!(!text_mentions("abc", "abd"));
    assert!(!text_mentions("", "a"));
}

#[test]
fn empty_query_keeps_everything_in_order() {
    let out = select_models(&query(), models());
    assert_eq!(ids(&out), vec!["org/Llama", "lab/mistral", "org/phi", "zed/llama-2", "abc/tiny"]);
}

#[test]
fn search_looks_at_the_id() {
    let q = ModelQuery { search: Some("LLAMA".to_string()), ..query() };
    assert_eq!(ids(&filter_models(&q, models())), vec!["org/Llama", "zed/llama-2"]);
}

#[test]
fn author_has_to_be_known() {
    let q = ModelQuery { author: Some("ORG".to_string()), ..query() };
    assert_eq!(ids(&filter_models(&q, models())), vec!["org/Llama", "org/phi"]);
    let q = ModelQuery { author: Some(String::new()), ..query() };
    assert_eq!(
        ids(&filter_models(&q, models())),
        vec!["org/Llama", "org/phi", "zed/llama-2", "abc/tiny"]
    );
}

#[test]
fn one_wanted_tag_is_enough() {
    let q = ModelQuery { tags: Some(" gguf , MLX ".to_string()), ..query() };
    assert_eq!(ids(&filter_models(&q, models())), vec!["org/Llama", "org/phi", "zed/llama-2"]);
    let q = ModelQuery { tags: Some("none".to_string()), ..query() };
    assert!(filter_models(&q, models()).is_empty());
    let q = ModelQuery { tags: Some("".to_string()), ..query() };
    assert_eq!(
        ids(&filter_models(&q, models())),
        vec!["org/Llama", "org/phi", "zed/llama-2", "abc/tiny"]
    );
    let q = ModelQuery { tags: Some("zzz,".to_string()), ..query() };
    assert_eq!(filter_models(&q, models()).len(), 4);
}

#[test]
fn pipeline_has_to_be_known() {
    let q = ModelQuery { pipeline: Some("generation".to_string()), ..query() };
    assert_eq!(ids(&filter_models(&q, models())), vec!["org/Llama", "lab/mistral", "org/phi", "abc/tiny"]);
}

#[test]
fn conditions_all_have_to_hold() {
    let q = ModelQuery {
        search: Some("org".to_string()),
        tags: Some("mlx".to_string()),
        ..query()
    };
    let all = models();
    assert!(!query_keeps(&q, &all[0]));
    assert!(query_keeps(&q, &all[2]));
    assert_eq!(ids(&filter_models(&q, all)), vec!["org/phi"]);
}

#[test]
fn downloads_order_keeps_ties_in_place() {
    let down = sort_models(SortKey::Downloads, false, models());
    assert_eq!(ids(&down), vec!["lab/mistral", "abc/tiny", "org/Llama", "org/phi", "zed/llama-2"]);
    let up = sort_models(SortKey::Downloads, true, models());
    assert_eq!(ids(&up), vec!["zed/llama-2", "org/Llama", "org/phi", "lab/mistral", "abc/tiny"]);
}

#[test]
fn author_order_puts_unknown_first() {
    let up = sort_models(SortKey::Author, true, models());
    assert_eq!(ids(&up), vec!["lab/mistral", "org/Llama", "zed/llama-2", "abc/tiny", "org/phi"]);
    let down = sort_models(SortKey::Author, false, models());
    assert_eq!(ids(&down), vec!["org/phi", "abc/tiny", "zed/llama-2", "org/Llama", "lab/mistral"]);
}

#[test]
fn created_order_is_the_order_of_strings() {
    let up = sort_models(SortKey::Created, true, models());
    assert_eq!(ids(&up), vec!["zed/llama-2", "lab/mistral", "org/phi", "org/Llama", "abc/tiny"]);
    let down = sort_models(SortKey::Created, false, models());
    assert_eq!(ids(&down), vec!["org/Llama", "abc/tiny", "org/phi", "lab/mistral", "zed/llama-2"]);
}

#[test]
fn unsorted_leaves_the_order() {
    for ascending in [true, false] {
        let out = sort_models(SortKey::Unsorted, ascending, models());
        assert_eq!(ids(&out), ids(&models()));
    }
    assert!(sort_models(SortKey::Downloads, true, vec![]).is_empty());
}

#[test]
fn orders_agree_with_the_standard_library() {
    let mut by_std = models();
    by_std.sort_by(|a, b| b.author.cmp(&a.author));
    assert_eq!(ids(&sort_models(SortKey::Author, false, models())), ids(&by_std));
    let mut by_std = models();
    by_std.sort_by(|a, b| a.created_at.cmp(&b.created_at));
    assert_eq!(ids(&sort_models(SortKey::Created, true, models())), ids(&by_std));
    let words = ["", "a", "ab", "b", "é", "z", "\u{10000}", "\u{ffff}", "aa", "B"];
    for x in words {
        for y in words {
            let a = model("a", None, 0, x, &[]);
            let b = model("b", None, 0, y, &[]);
            assert_eq!(precedes(SortKey::Created, true, &a, &b), x < y, "{:?} {:?}", x, y);
            assert_eq!(precedes(SortKey::Created, false, &a, &b), y < x, "{:?} {:?}", x, y);
        }
    }
}

#[test]
fn limit_keeps_the_first() {
    let q = ModelQuery { sort: SortKey::Downloads, limit: 2, ..query() };
    assert_eq!(ids(&select_models(&q, models())), vec!["lab/mistral", "abc/tiny"]);
    let q = ModelQuery { limit: 0, ..query() };
    assert!(select_models(&q, models()).is_empty());
    let q = ModelQuery { limit: 5, ..query() };
    assert_eq!(select_models(&q, models()).len(), 5);
    let q = ModelQuery { limit: u32::MAX, ..query() };
    assert_eq!(select_models(&q, models()).len(), 5);
}

#[test]
fn selection_filters_then_orders_then_cuts() {
    let q = ModelQuery {
        search: Some("l".to_string()),
        sort: SortKey::Created,
        ascending: true,
        limit: 2,
        ..query()
    };
    assert_eq!(ids(&select_models(&q, models())), vec!["zed/llama-2", "lab/mistral"]);
}

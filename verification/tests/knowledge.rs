use ai_tools_hub::knowledge::{
    build_knowledge_context, context_for, doc_file_name, knowledge_context_checked, list_topics,
    new_doc, search, topics_from_docs, KnowledgeDoc,
};

fn doc(id: &str, title: &str, content: &str, tags: &str, updated: &str) -> KnowledgeDoc {
    KnowledgeDoc {
        id: id.into(),
        title: title.into(),
        content: content.into(),
        tags: tags.into(),
        source: "vault".into(),
        created_at: updated.into(),
        updated_at: updated.into(),
    }
}

fn docs() -> Vec<KnowledgeDoc> {
    vec![
        doc("1", "Rust notes", "Ownership and borrowing", "rust, lang", "100"),
        doc("2", "Cooking", "Pasta recipe", "food", "300"),
        doc("3", "Async Rust", "Futures and tasks", "rust,async", "200"),
        doc("4", "More rust", "Traits", "rust", "200"),
    ]
}

#[test]
fn search_is_case_insensitive_and_newest_first() {
    let r = search(&docs(), "RUST", 10);
    let ids: Vec<&str> = r.iter().map(|d| d.id.as_str()).collect();
    assert_eq!(ids, vec!["3", "4", "1"]);
}

#[test]
fn search_limits_and_empty_query_matches_all() {
    assert_eq!(search(&docs(), "rust", 2).len(), 2);
    assert_eq!(search(&docs(), "", 10).len(), 4);
    assert_eq!(search(&docs(), "", 0).len(), 0);
    assert!(search(&docs(), "python", 10).is_empty());
    // the source is searched too
    assert_eq!(search(&docs(), "VAULT", 10).len(), 4);
}

#[test]
fn topics_count_tags() {
    let t = list_topics(&docs());
    let rust = t.iter().find(|t| t.name == "rust").unwrap();
    assert_eq!(rust.doc_count, 3);
    let food = t.iter().find(|t| t.name == "food").unwrap();
    assert_eq!(food.doc_count, 1);
    assert_eq!(t.len(), 4);
    assert_eq!(topics_from_docs(&docs()).len(), 4);
}

#[test]
fn context_lists_found_documents() {
    let ctx = build_knowledge_context(&docs(), "cooking", 3);
    assert_eq!(
        ctx,
        "\n\n[Shared Knowledge Base \u{2014} relevant documents]\n--- Doc 1: Cooking (tags: food) ---\nPasta recipe\n\n[/Shared Knowledge Base]"
    );
    assert_eq!(build_knowledge_context(&docs(), "nothing-like-this", 3), "");
    assert_eq!(context_for(&vec![]), "");
}

#[test]
fn long_contents_are_cut_to_a_preview() {
    let long = "x".repeat(400);
    let ds = vec![doc("9", "Long", &long, "t", "1")];
    let ctx = build_knowledge_context(&ds, "long", 3);
    assert!(ctx.contains(&format!("{}...\n\n", "x".repeat(300))));
    assert!(!ctx.contains(&"x".repeat(301)));
}

#[test]
fn previews_that_would_split_a_character_are_refused_by_the_checked_form() {
    let bad = format!("{}é{}", "a".repeat(299), "b".repeat(10));
    let ds = vec![doc("8", "Accent", &bad, "t", "1")];
    assert_eq!(knowledge_context_checked(&ds, "accent", 3), None);
    let good = vec![doc("7", "Fine", "short", "t", "1")];
    assert_eq!(knowledge_context_checked(&good, "fine", 3), Some(build_knowledge_context(&good, "fine", 3)));
}

#[test]
fn new_documents_get_an_id_from_title_and_time() {
    let d = new_doc("  Hello World! 2024 ", "body", "a,b", "me", Some(1700000000));
    assert_eq!(d.id, "hello_world_2024_1700000000");
    assert_eq!(d.title, "  Hello World! 2024 ");
    assert_eq!(d.created_at, "1700000000");
    assert_eq!(d.updated_at, "1700000000");
    let e = new_doc("Ünïcode Title", "", "", "", None);
    assert_eq!(e.id, "ünïcode_title_");
    assert_eq!(doc_file_name("abc_1"), "abc_1.json");
}

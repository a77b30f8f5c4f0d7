use knowledge_base::wiki::{
    change_reply, create_reply, new_page_record, page_from_row, page_language, page_update,
    pages_from_rows, NewPage, PageRow, Reply,
};

fn row(id: i64, tags: &str, pinned: i64) -> PageRow {
    PageRow {
        id,
        title: format!("Title {}", id),
        content: "Body".to_string(),
        html: "<p>Body</p>\n".to_string(),
        tags: tags.to_string(),
        author: "anna".to_string(),
        created_at: "2024-01-01T00:00:00+00:00".to_string(),
        updated_at: "2024-01-02T00:00:00+00:00".to_string(),
        pinned,
        lang: "en".to_string(),
    }
}

fn submission(title: &str, lang: &str) -> NewPage {
    NewPage {
        title: title.to_string(),
        content: "# Heading\n\nSome *text*.".to_string(),
        tags: vec!["one".to_string(), "two".to_string()],
        author: "boris".to_string(),
        lang: lang.to_string(),
    }
}

#[test]
fn row_read_back_as_page() {
    let page = page_from_row(row(7, r#"["a","b"]"#, 1));
    assert_eq!(page.id, 7);
    assert_eq!(page.title, "Title 7");
    assert_eq!(page.tags, vec!["a".to_string(), "b".to_string()]);
    assert!(page.pinned);
    assert_eq!(page.lang, "en");
    assert_eq!(page.author, "anna");
}

#[test]
fn row_with_bad_tags_and_unpinned() {
    let page = page_from_row(row(3, "oops", 0));
    assert!(page.tags.is_empty());
    assert!(!page.pinned);
    let page = page_from_row(row(4, "[]", -5));
    assert!(page.pinned);
}

#[test]
fn rows_read_back_in_order() {
    let pages = pages_from_rows(vec![row(1, "[]", 0), row(2, r#"["x"]"#, 1), row(3, "[]", 0)]);
    let ids: Vec<i64> = pages.iter().map(|p| p.id).collect();
    assert_eq!(ids, vec![1, 2, 3]);
    assert_eq!(pages[1].tags, vec!["x".to_string()]);
}

#[test]
fn new_page_record_fields() {
    let rec = new_page_record(submission("Привет", ""), "2024-05-05T10:00:00+00:00".to_string());
    assert_eq!(rec.title, "Привет");
    assert_eq!(rec.html, "<h1>Heading</h1>\n<p>Some <em>text</em>.</p>\n");
    assert_eq!(rec.tags, r#"["one","two"]"#);
    assert_eq!(rec.author, "boris");
    assert_eq!(rec.created_at, "2024-05-05T10:00:00+00:00");
    assert_eq!(rec.updated_at, "2024-05-05T10:00:00+00:00");
    assert!(!rec.pinned);
    assert_eq!(rec.lang, "ru");
}

#[test]
fn new_page_keeps_given_language() {
    let rec = new_page_record(submission("Привет", "de"), "now".to_string());
    assert_eq!(rec.lang, "de");
    let rec = new_page_record(submission("Hello", ""), "now".to_string());
    assert_eq!(rec.lang, "en");
}

#[test]
fn page_update_fields() {
    let upd = page_update(submission("Hello", ""), "later".to_string());
    assert_eq!(upd.title, "Hello");
    assert_eq!(upd.updated_at, "later");
    assert_eq!(upd.lang, "en");
    assert_eq!(upd.tags, r#"["one","two"]"#);
    assert_eq!(upd.html, "<h1>Heading</h1>\n<p>Some <em>text</em>.</p>\n");
}

#[test]
fn language_choice() {
    assert_eq!(page_language("Hello", &String::new()), "en");
    assert_eq!(page_language("Hello", &"ru".to_string()), "ru");
}

#[test]
fn create_replies() {
    assert_eq!(create_reply(Ok(12)), Reply::Created(12));
    assert_eq!(
        create_reply(Err("error returned from database: (code: 2067) UNIQUE constraint failed: pages.title".to_string())),
        Reply::Conflict
    );
    assert_eq!(create_reply(Err("database is locked".to_string())), Reply::Failed);
}

#[test]
fn change_replies() {
    assert_eq!(change_reply(Ok(1)), Reply::Done);
    assert_eq!(change_reply(Ok(0)), Reply::NotFound);
    assert_eq!(change_reply(Err("disk I/O error".to_string())), Reply::Failed);
}

#[test]
fn created_page_reads_back() {
    let rec = new_page_record(submission("Hello", ""), "2024-06-01T00:00:00+00:00".to_string());
    let row = PageRow {
        id: 42,
        title: rec.title.clone(),
        content: rec.content.clone(),
        html: rec.html.clone(),
        tags: rec.tags.clone(),
        author: rec.author.clone(),
        created_at: rec.created_at.clone(),
        updated_at: rec.updated_at.clone(),
        pinned: if rec.pinned { 1 } else { 0 },
        lang: rec.lang.clone(),
    };
    let page = page_from_row(row);
    assert_eq!(page.id, 42);
    assert_eq!(page.tags, vec!["one".to_string(), "two".to_string()]);
    assert!(!page.pinned);
    assert_eq!(page.lang, "en");
    assert_eq!(page.created_at, "2024-06-01T00:00:00+00:00");
}

#[test]
fn updated_page_reads_back() {
    let old = row(5, r#"["old"]"#, 1);
    let upd = page_update(submission("Привет", ""), "later".to_string());
    let new = PageRow {
        id: old.id,
        title: upd.title.clone(),
        content: upd.content.clone(),
        html: upd.html.clone(),
        tags: upd.tags.clone(),
        author: old.author.clone(),
        created_at: old.created_at.clone(),
        updated_at: upd.updated_at.clone(),
        pinned: old.pinned,
        lang: upd.lang.clone(),
    };
    let page = page_from_row(new);
    assert_eq!(page.id, 5);
    assert_eq!(page.title, "Привет");
    assert_eq!(page.author, "anna");
    assert_eq!(page.created_at, "2024-01-01T00:00:00+00:00");
    assert_eq!(page.updated_at, "later");
    assert!(page.pinned);
    assert_eq!(page.tags, vec!["one".to_string(), "two".to_string()]);
    assert_eq!(page.lang, "ru");
}

//! Pages of the knowledge base: the records that are stored and read back,
//! and what each change request answers.

use vstd::prelude::*;
use vstd::string::*;
use crate::json::{stored_tags, tags_from_json, tags_text, tags_to_json};
use crate::lang::{detect_language, language_code};
use crate::text::{contains_str, lowercase, occurs_at};
use vstd::utf8::encode_utf8;

verus! {

broadcast use vstd::string::group_string_axioms;

/// A page as the knowledge base shows it.
#[derive(Debug, Clone)]
pub struct Page {
    pub id: i64,
    pub title: String,
    pub content: String,
    pub html: String,
    pub tags: Vec<String>,
    pub author: String,
    pub created_at: String,
    pub updated_at: String,
    pub pinned: bool,
    pub lang: String,
}

/// A page as a user submits it, to create a page or to replace one.
#[derive(Debug)]
pub struct NewPage {
    pub title: String,
    pub content: String,
    pub tags: Vec<String>,
    pub author: String,
    pub lang: String,
}

/// A request to pin or unpin a page.
#[derive(Debug)]
pub struct TogglePinned {
    pub pinned: bool,
}

/// A page as it is stored: tags as a JSON array, pinned as an integer.
#[derive(Debug)]
pub struct PageRow {
    pub id: i64,
    pub title: String,
    pub content: String,
    pub html: String,
    pub tags: String,
    pub author: String,
    pub created_at: String,
    pub updated_at: String,
    pub pinned: i64,
    pub lang: String,
}

/// The stored fields of a new page.
#[derive(Debug)]
pub struct PageRecord {
    pub title: String,
    pub content: String,
    pub html: String,
    pub tags: String,
    pub author: String,
    pub created_at: String,
    pub updated_at: String,
    pub pinned: bool,
    pub lang: String,
}

/// The stored fields that replacing a page rewrites; its author, creation
/// time and pin stay as they were.
#[derive(Debug)]
pub struct PageUpdate {
    pub title: String,
    pub content: String,
    pub html: String,
    pub tags: String,
    pub updated_at: String,
    pub lang: String,
}

/// `rec` is the record stored for `page` submitted at time `now`: its
/// Markdown rendered to HTML, its tags as a JSON array from which the same
/// tags are read back, created and updated at `now`, not pinned, with the
/// language given or detected from the title.
pub open spec fn records(rec: PageRecord, page: NewPage, now: Seq<char>) -> bool {
    &&& rec.title == page.title
    &&& rec.content == page.content
    &&& rec.html@ == commonmark_html(page.content@)
    &&& rec.tags@ == tags_text(page.tags.deep_view())
    &&& stored_tags(rec.tags@) == page.tags.deep_view()
    &&& rec.author == page.author
    &&& rec.created_at@ == now
    &&& rec.updated_at@ == now
    &&& !rec.pinned
    &&& rec.lang@ == chosen_language(page.title@, page.lang@)
}

/// `upd` holds the fields that replacing a page by `page` at time `now`
/// rewrites; the submitted author is not among them.
pub open spec fn updates(upd: PageUpdate, page: NewPage, now: Seq<char>) -> bool {
    &&& upd.title == page.title
    &&& upd.content == page.content
    &&& upd.html@ == commonmark_html(page.content@)
    &&& upd.tags@ == tags_text(page.tags.deep_view())
    &&& stored_tags(upd.tags@) == page.tags.deep_view()
    &&& upd.updated_at@ == now
    &&& upd.lang@ == chosen_language(page.title@, page.lang@)
}

/// `page` is `row` read back: tags parsed from their JSON array (none when it
/// is not one), pinned when the stored integer is not 0, the rest as stored.
pub open spec fn reads_back(page: Page, row: PageRow) -> bool {
    &&& page.id == row.id
    &&& page.title == row.title
    &&& page.content == row.content
    &&& page.html == row.html
    &&& page.tags.deep_view() == stored_tags(row.tags@)
    &&& page.author == row.author
    &&& page.created_at == row.created_at
    &&& page.updated_at == row.updated_at
    &&& page.pinned == (row.pinned != 0)
    &&& page.lang == row.lang
}

/// `row` is the row stored for `rec` under `id`, the flag stored as 1 or 0.
pub open spec fn stored_as(row: PageRow, rec: PageRecord, id: i64) -> bool {
    &&& row.id == id
    &&& row.title == rec.title
    &&& row.content == rec.content
    &&& row.html == rec.html
    &&& row.tags == rec.tags
    &&& row.author == rec.author
    &&& row.created_at == rec.created_at
    &&& row.updated_at == rec.updated_at
    &&& row.pinned == (if rec.pinned { 1i64 } else { 0i64 })
    &&& row.lang == rec.lang
}

/// `new` is the row `old` with the fields of `upd` written over it.
pub open spec fn updated_as(new: PageRow, old: PageRow, upd: PageUpdate) -> bool {
    &&& new.id == old.id
    &&& new.title == upd.title
    &&& new.content == upd.content
    &&& new.html == upd.html
    &&& new.tags == upd.tags
    &&& new.author == old.author
    &&& new.created_at == old.created_at
    &&& new.updated_at == upd.updated_at
    &&& new.pinned == old.pinned
    &&& new.lang == upd.lang
}

/// What `comrak::markdown_to_html` renders from a Markdown text with the
/// default options.
pub uninterp spec fn commonmark_html(markdown: Seq<char>) -> Seq<char>;

/// Calls `comrak::markdown_to_html` with `comrak::Options::default()`. Its
/// result is named `commonmark_html`, a function of the Markdown text alone;
/// the rendering rules are not restated here.
#[verifier::external_body]
fn render_markdown(markdown: &str) -> (res: String)
    ensures
        res@ == commonmark_html(markdown@),
{
    comrak::markdown_to_html(markdown, &comrak::Options::default())
}

/// The language a page is stored with: the one given, or when none is given
/// the one detected from its title.
pub open spec fn chosen_language(title: Seq<char>, lang: Seq<char>) -> Seq<char> {
    if lang.len() == 0 {
        language_code(lowercase(title))
    } else {
        lang
    }
}

/// The language for a submitted page: the one given, or the one detected
/// from its title when none is given.
pub fn page_language(title: &str, lang: &String) -> (res: String)
    ensures
        res@ == chosen_language(title@, lang@),
{
    if lang.as_str().is_empty() {
        detect_language(title)
    } else {
        lang.clone()
    }
}

/// The record stored for a new page submitted at time `now`: its Markdown
/// rendered to HTML, its tags as a JSON array, created and updated at `now`,
/// not pinned, with the language given or detected from the title.
pub fn new_page_record(page: NewPage, now: String) -> (rec: PageRecord)
    ensures
        records(rec, page, now@),
{
    let html = render_markdown(page.content.as_str());
    let tags = tags_to_json(&page.tags);
    let lang = page_language(page.title.as_str(), &page.lang);
    let created_at = now.clone();
    PageRecord {
        title: page.title,
        content: page.content,
        html,
        tags,
        author: page.author,
        created_at,
        updated_at: now,
        pinned: false,
        lang,
    }
}

/// The fields rewritten when a page is replaced by a submission at time
/// `now`; the submitted author is not among them.
pub fn page_update(page: NewPage, now: String) -> (upd: PageUpdate)
    ensures
        updates(upd, page, now@),
{
    let html = render_markdown(page.content.as_str());
    let tags = tags_to_json(&page.tags);
    let lang = page_language(page.title.as_str(), &page.lang);
    PageUpdate { title: page.title, content: page.content, html, tags, updated_at: now, lang }
}

/// A page read back from its stored row: tags parsed from their JSON array
/// (none when it is not one), pinned when the stored integer is not 0.
pub fn page_from_row(row: PageRow) -> (page: Page)
    ensures
        reads_back(page, row),
{
    let tags = tags_from_json(row.tags.as_str());
    Page {
        id: row.id,
        title: row.title,
        content: row.content,
        html: row.html,
        tags,
        author: row.author,
        created_at: row.created_at,
        updated_at: row.updated_at,
        pinned: row.pinned != 0,
        lang: row.lang,
    }
}

/// The pages read back from their stored rows, in the same order.
pub fn pages_from_rows(rows: Vec<PageRow>) -> (pages: Vec<Page>)
    ensures
        pages@.len() == rows@.len(),
        forall|k: int| 0 <= k < rows@.len() ==> reads_back(#[trigger] pages@[k], rows@[k]),
{
    let ghost orig = rows@;
    let n = rows.len();
    let mut rest = rows;
    let mut pages: Vec<Page> = Vec::new();
    let mut i: usize = 0;
    while i < n
        invariant
            n == orig.len(),
            0 <= i <= n,
            rest@ == orig.subrange(i as int, n as int),
            pages@.len() == i,
            forall|k: int| 0 <= k < i ==> reads_back(#[trigger] pages@[k], orig[k]),
        decreases n - i,
    {
        let row = rest.remove(0);
        assert(row == orig[i as int]);
        assert(rest@ =~= orig.subrange(i + 1, n as int));
        pages.push(page_from_row(row));
        i = i + 1;
    }
    pages
}

/// Law: a page submitted without a language gets the language that
/// `detect_language` gives for its title (the language of the lower-cased
/// title), and one submitted with a language keeps it.
pub proof fn lemma_language_of_submission(title: Seq<char>, lang: Seq<char>)
    ensures
        lang.len() == 0 ==> chosen_language(title, lang) == language_code(lowercase(title)),
        lang.len() > 0 ==> chosen_language(title, lang) == lang,
        lang.len() == 0 ==> (chosen_language(title, lang) == "ru"@ || chosen_language(title, lang) == "en"@),
{
    crate::lang::lemma_language_is_ru_or_en(title);
}

/// Law: a created page reads back as submitted. The record stored for a
/// page submitted at `now`, read back from its row under `id`, has that id,
/// the submitted title, content, author and tags, the HTML of its content,
/// `now` as its creation and update time, no pin, and the language given or
/// detected from the title.
pub proof fn lemma_created_page_reads_back(
    page: NewPage,
    now: Seq<char>,
    rec: PageRecord,
    id: i64,
    row: PageRow,
    read: Page,
)
    requires
        records(rec, page, now),
        stored_as(row, rec, id),
        reads_back(read, row),
    ensures
        read.id == id,
        read.title == page.title,
        read.content == page.content,
        read.html@ == commonmark_html(page.content@),
        read.tags.deep_view() == page.tags.deep_view(),
        read.author == page.author,
        read.created_at@ == now,
        read.updated_at@ == now,
        !read.pinned,
        read.lang@ == chosen_language(page.title@, page.lang@),
{
}

/// Law: a replaced page reads back as resubmitted. The row of a page
/// replaced by `page` at `now`, read back, has the new title, content, tags,
/// HTML, language and update time, and keeps its id, author, creation time
/// and pin.
pub proof fn lemma_updated_page_reads_back(
    page: NewPage,
    now: Seq<char>,
    upd: PageUpdate,
    old: PageRow,
    new: PageRow,
    read: Page,
)
    requires
        updates(upd, page, now),
        updated_as(new, old, upd),
        reads_back(read, new),
    ensures
        read.id == old.id,
        read.title == page.title,
        read.content == page.content,
        read.html@ == commonmark_html(page.content@),
        read.tags.deep_view() == page.tags.deep_view(),
        read.author == old.author,
        read.created_at == old.created_at,
        read.updated_at@ == now,
        read.pinned == (old.pinned != 0),
        read.lang@ == chosen_language(page.title@, page.lang@),
{
}

/// What a request that writes pages is answered with.
#[derive(PartialEq, Eq, Structural, Debug, Clone, Copy)]
pub enum Reply {
    /// The change was made.
    Done,
    /// A page was created with this id.
    Created(i64),
    /// No page has the requested id.
    NotFound,
    /// A page with the same title exists already.
    Conflict,
    /// The store failed.
    Failed,
}

/// The text by which the store reports a duplicate title.
pub open spec fn reports_duplicate(error: Seq<char>) -> bool {
    exists|j: int| occurs_at(encode_utf8(error), encode_utf8("UNIQUE constraint failed"@), j)
}

/// The answer to creating a page, from what the store answered: the new
/// page's id, or its error text; an error that names the uniqueness
/// constraint is a duplicate title.
pub fn create_reply(stored: Result<i64, String>) -> (reply: Reply)
    ensures
        match stored {
            Ok(id) => reply == Reply::Created(id),
            Err(error) => reply == if reports_duplicate(error@) {
                Reply::Conflict
            } else {
                Reply::Failed
            },
        },
{
    match stored {
        Ok(id) => Reply::Created(id),
        Err(error) => {
            if contains_str(error.as_str(), "UNIQUE constraint failed") {
                Reply::Conflict
            } else {
                Reply::Failed
            }
        },
    }
}

/// The answer to changing a page (replacing it or pinning it), from what the
/// store answered: how many rows it changed, or its error text.
pub fn change_reply(stored: Result<u64, String>) -> (reply: Reply)
    ensures
        match stored {
            Ok(rows) => reply == if rows > 0 { Reply::Done } else { Reply::NotFound },
            Err(_) => reply == Reply::Failed,
        },
{
    match stored {
        Ok(rows) => if rows > 0 { Reply::Done } else { Reply::NotFound },
        Err(_) => Reply::Failed,
    }
}

} // verus!

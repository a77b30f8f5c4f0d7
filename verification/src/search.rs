//! Full-text search over the pages of the knowledge base: fuzzy relevance of
//! title, content and tags, an excerpt around the first match, and ranking.

use vstd::prelude::*;
use vstd::string::*;
use vstd::utf8::*;
use fuzzy_matcher::FuzzyMatcher;
use crate::json::{stored_tags, tags_from_json};
use crate::ranking::{first_page, snippet_len, sorted_by_snippet_len, stable_by_snippet_len, MAX_RESULTS};
use crate::text::{occurs_at, first_occurrence, find_str, first_chars, is_blank, lowercase, to_lowercase, trims_to_empty};

verus! {

broadcast use vstd::string::group_string_axioms;

/// A search request: the text typed by the user.
#[derive(Debug)]
pub struct SearchQuery {
    pub q: String,
}

/// One hit of a search: the page, its tags and an excerpt of its content.
#[derive(Debug)]
pub struct SearchResult {
    pub id: i64,
    pub title: String,
    pub tags: Vec<String>,
    pub snippet: String,
}

/// How a fuzzy match of `pattern` against `choice` scores with a
/// `SkimMatcherV2` in its default configuration: `None` when `pattern` does
/// not match.
pub uninterp spec fn skim_score(choice: Seq<char>, pattern: Seq<char>) -> Option<i64>;

/// Calls `FuzzyMatcher::fuzzy_match` of `fuzzy_matcher::skim::SkimMatcherV2`
/// in its default configuration. Its result is named `skim_score`, a
/// function of the two texts alone (the matcher's caches only reuse memory).
/// Two facts are stated that its source shows: an empty pattern scores 0, and
/// a score is an `i32` widened to `i64`. The scoring itself is not restated.
#[verifier::external_body]
fn fuzzy_score(choice: &str, pattern: &str) -> (res: Option<i64>)
    ensures
        res == skim_score(choice@, pattern@),
        pattern@.len() == 0 ==> res == Some(0i64),
        res matches Some(s) ==> i32::MIN <= s <= i32::MAX,
{
    fuzzy_matcher::skim::SkimMatcherV2::default().fuzzy_match(choice, pattern)
}

/// A score counted with weight `w`, or nothing when there is no match.
pub open spec fn weighted(score: Option<i64>, w: int) -> int {
    match score {
        Some(s) => w * s,
        None => 0,
    }
}

pub open spec fn fits_i64(x: int) -> bool {
    i64::MIN <= x <= i64::MAX
}

/// The tag matches counted twice each.
pub open spec fn tag_total(tags: Seq<Option<i64>>) -> int
    decreases tags.len(),
{
    if tags.len() == 0 {
        0
    } else {
        tag_total(tags.drop_last()) + weighted(tags.last(), 2)
    }
}

/// The relevance of a page: its title match counted three times, its
/// content match once and each tag match twice.
pub open spec fn relevance(title: Option<i64>, content: Option<i64>, tags: Seq<Option<i64>>) -> int {
    weighted(title, 3) + weighted(content, 1) + tag_total(tags)
}

/// Every value met while adding up the relevance in that order (each
/// weighted score and each running total) fits in an `i64`.
pub open spec fn relevance_fits(title: Option<i64>, content: Option<i64>, tags: Seq<Option<i64>>) -> bool {
    &&& fits_i64(weighted(title, 3))
    &&& fits_i64(weighted(title, 3) + weighted(content, 1))
    &&& forall|k: int|
        0 <= k < tags.len() ==> fits_i64(weighted(#[trigger] tags[k], 2)) && fits_i64(
            weighted(title, 3) + weighted(content, 1) + tag_total(tags.take(k + 1)),
        )
}

/// Adds up the relevance of a page from the scores of its title, content and
/// tags; `None` when a value on the way does not fit in an `i64`.
pub fn relevance_score(title: Option<i64>, content: Option<i64>, tags: &Vec<Option<i64>>) -> (res: Option<i64>)
    ensures
        res is Some <==> relevance_fits(title, content, tags@),
        res matches Some(s) ==> s as int == relevance(title, content, tags@),
{
    let mut score: i64 = 0;
    if let Some(s) = title {
        match s.checked_mul(3) {
            Some(v) => score = v,
            None => return None,
        }
    }
    if let Some(s) = content {
        match score.checked_add(s) {
            Some(v) => score = v,
            None => return None,
        }
    }
    let n = tags.len();
    let mut k: usize = 0;
    assert(tags@.take(0) =~= Seq::<Option<i64>>::empty());
    while k < n
        invariant
            n == tags@.len(),
            0 <= k <= n,
            fits_i64(weighted(title, 3)),
            fits_i64(weighted(title, 3) + weighted(content, 1)),
            score == weighted(title, 3) + weighted(content, 1) + tag_total(tags@.take(k as int)),
            forall|j: int|
                0 <= j < k ==> fits_i64(weighted(#[trigger] tags@[j], 2)) && fits_i64(
                    weighted(title, 3) + weighted(content, 1) + tag_total(tags@.take(j + 1)),
                ),
        decreases n - k,
    {
        assert(tags@.take(k + 1).drop_last() =~= tags@.take(k as int));
        if let Some(s) = tags[k] {
            match s.checked_mul(2) {
                Some(d) => match score.checked_add(d) {
                    Some(v) => score = v,
                    None => return None,
                },
                None => return None,
            }
        }
        k = k + 1;
    }
    assert(tags@.take(n as int) =~= tags@);
    Some(score)
}

/// Bytes of context kept on each side of the first match in an excerpt.
pub const CONTEXT_BYTES: usize = 30;

/// Characters an excerpt keeps of a page in which the query does not occur.
pub const PREVIEW_CHARS: usize = 100;

/// Where the excerpt window starts: `CONTEXT_BYTES` before the match, or at
/// the start of the text.
pub open spec fn window_start(pos: int) -> int {
    if pos >= CONTEXT_BYTES { pos - CONTEXT_BYTES } else { 0 }
}

/// Where the excerpt window ends: `CONTEXT_BYTES` after the match, or at the
/// end of the text (`clen` bytes).
pub open spec fn window_end(pos: int, qlen: int, clen: int) -> int {
    if pos + qlen + CONTEXT_BYTES < clen { pos + qlen + CONTEXT_BYTES } else { clen }
}

/// The excerpt of `content` for a query, given the lower-cased content and
/// query: when the query occurs in the lower-cased content (first at byte
/// `pos`), the bytes of `content` from `window_start(pos)` to
/// `window_end(..)`, with `...` before it unless it starts the text and after
/// it unless it ends the text; `None` when that window does not fall on
/// character boundaries of `content` in order. When the query does not occur,
/// the first `PREVIEW_CHARS` characters of `content` followed by `...`.
pub open spec fn excerpt(content: Seq<char>, lower_content: Seq<char>, lower_query: Seq<char>) -> Option<Seq<char>> {
    let cb = encode_utf8(content);
    match first_occurrence(encode_utf8(lower_content), encode_utf8(lower_query)) {
        None => Some(
            content.take(
                if content.len() < PREVIEW_CHARS { content.len() as int } else { PREVIEW_CHARS as int },
            ) + "..."@,
        ),
        Some(pos) => {
            let start = window_start(pos);
            let end = window_end(pos, encode_utf8(lower_query).len() as int, cb.len() as int);
            if start <= end && is_char_boundary(cb, start) && is_char_boundary(cb, end) {
                Some(
                    (if start > 0 { "..."@ } else { Seq::empty() }) + decode_utf8(cb.subrange(start, end))
                        + (if end < cb.len() { "..."@ } else { Seq::empty() }),
                )
            } else {
                None
            }
        },
    }
}

proof fn lemma_boundary_in_suffix(bytes: Seq<u8>, start: int, end: int)
    requires
        valid_utf8(bytes),
        0 <= start <= end <= bytes.len(),
        is_char_boundary(bytes, start),
        is_char_boundary(bytes, end),
    ensures
        valid_utf8(bytes.subrange(start, bytes.len() as int)),
        is_char_boundary(bytes.subrange(start, bytes.len() as int), end - start),
{
    broadcast use valid_utf8_split, is_char_boundary_start_end_of_seq,
        is_char_boundary_iff_not_is_continuation_byte;

    let tail = bytes.subrange(start, bytes.len() as int);
    assert(valid_utf8(tail));
    if end == start {
        assert(is_char_boundary(tail, 0));
    } else if end == bytes.len() {
        assert(is_char_boundary(tail, tail.len() as int));
    } else {
        assert(tail[end - start] == bytes[end]);
        assert(!is_continuation_byte(bytes[end]));
    }
}

/// The excerpt shown for a page: see `excerpt`. Takes the page content and
/// the lower-cased content and query.
pub fn excerpt_of(content: &str, lower_content: &str, lower_query: &str) -> (res: Option<String>)
    ensures
        match res {
            Some(s) => excerpt(content@, lower_content@, lower_query@) == Some(s@),
            None => excerpt(content@, lower_content@, lower_query@) is None,
        },
{
    broadcast use encode_utf8_valid_utf8, encode_utf8_decode_utf8;

    let ghost cb = encode_utf8(content@);
    let ghost lb = encode_utf8(lower_content@);
    let ghost qb = encode_utf8(lower_query@);
    match find_str(lower_content, lower_query) {
        None => {
            assert(!exists|i: int| occurs_at(lb, qb, i));
            let mut s = first_chars(content, PREVIEW_CHARS);
            s.append("...");
            Some(s)
        },
        Some(pos) => {
            assert(first_occurrence(lb, qb) == Some(pos as int)) by {
                assert(occurs_at(lb, qb, pos as int));
                let j = choose|j: int| occurs_at(lb, qb, j) && forall|k: int| 0 <= k < j ==> !occurs_at(lb, qb, k);
                assert(j == pos);
            }
            let clen = content.as_bytes().len();
            let qlen = lower_query.as_bytes().len();
            let llen = lower_content.as_bytes().len();
            let start = if pos >= CONTEXT_BYTES { pos - CONTEXT_BYTES } else { 0 };
            let reach = pos + qlen;
            let end = if reach < clen && clen - reach > CONTEXT_BYTES { reach + CONTEXT_BYTES } else { clen };
            assert(end == window_end(pos as int, qb.len() as int, cb.len() as int));
            if start <= end && content.is_char_boundary(start) && content.is_char_boundary(end) {
                let (_, tail) = content.split_at(start);
                proof {
                    lemma_boundary_in_suffix(cb, start as int, end as int);
                    assert(tail.spec_bytes() =~= cb.subrange(start as int, cb.len() as int));
                }
                let (middle, _) = tail.split_at(end - start);
                assert(middle.spec_bytes() =~= cb.subrange(start as int, end as int));
                assert(middle@ == decode_utf8(cb.subrange(start as int, end as int)));
                let mut s = if start > 0 { String::from_str("...") } else { String::new() };
                s.append(middle);
                if end < clen {
                    s.append("...");
                }
                Some(s)
            } else {
                None
            }
        },
    }
}

} // verus!

verus! {

/// A page as the search reads it: its id, title, content and the JSON array
/// text of its tags.
#[derive(Debug)]
pub struct SearchRow {
    pub id: i64,
    pub title: String,
    pub content: String,
    pub tags: String,
}

/// Why a search could not be answered.
#[derive(PartialEq, Eq, Structural, Debug, Clone, Copy)]
pub enum SearchError {
    /// Adding up the relevance of a page overflows an `i64`.
    ScoreOverflow,
    /// The excerpt window of a relevant page does not fall on character
    /// boundaries of its content, in order.
    ExcerptOutOfBounds,
}

/// A page is shown when its relevance exceeds this.
pub const RELEVANCE_THRESHOLD: i64 = 20;

/// The tags of a row.
pub open spec fn row_tags(row: SearchRow) -> Seq<Seq<char>> {
    stored_tags(row.tags@)
}

/// The scores of the tags of a row against the lower-cased query.
pub open spec fn row_tag_scores(row: SearchRow, lower_query: Seq<char>) -> Seq<Option<i64>> {
    row_tags(row).map_values(|t: Seq<char>| skim_score(t, lower_query))
}

pub open spec fn row_relevance_fits(row: SearchRow, lower_query: Seq<char>) -> bool {
    relevance_fits(
        skim_score(row.title@, lower_query),
        skim_score(row.content@, lower_query),
        row_tag_scores(row, lower_query),
    )
}

/// The relevance of a row for the lower-cased query.
pub open spec fn row_relevance(row: SearchRow, lower_query: Seq<char>) -> int {
    relevance(
        skim_score(row.title@, lower_query),
        skim_score(row.content@, lower_query),
        row_tag_scores(row, lower_query),
    )
}

/// A row is a hit when its relevance exceeds the threshold.
pub open spec fn row_is_hit(row: SearchRow, lower_query: Seq<char>) -> bool {
    row_relevance(row, lower_query) > RELEVANCE_THRESHOLD
}

/// The excerpt of a row's content for the lower-cased query.
pub open spec fn row_excerpt(row: SearchRow, lower_query: Seq<char>) -> Option<Seq<char>> {
    excerpt(row.content@, lowercase(row.content@), lower_query)
}

/// What goes wrong with a row, if anything: its relevance overflows, or it
/// is a hit whose excerpt cannot be cut.
pub open spec fn row_failure(row: SearchRow, lower_query: Seq<char>) -> Option<SearchError> {
    if !row_relevance_fits(row, lower_query) {
        Some(SearchError::ScoreOverflow)
    } else if row_is_hit(row, lower_query) && row_excerpt(row, lower_query) is None {
        Some(SearchError::ExcerptOutOfBounds)
    } else {
        None
    }
}

/// What goes wrong first, going through the rows in order.
pub open spec fn first_failure(rows: Seq<SearchRow>, lower_query: Seq<char>) -> Option<SearchError>
    decreases rows.len(),
{
    if rows.len() == 0 {
        None
    } else {
        match first_failure(rows.drop_last(), lower_query) {
            Some(e) => Some(e),
            None => row_failure(rows.last(), lower_query),
        }
    }
}

/// The rows that are hits, in their order.
pub open spec fn hit_rows(rows: Seq<SearchRow>, lower_query: Seq<char>) -> Seq<SearchRow>
    decreases rows.len(),
{
    if rows.len() == 0 {
        Seq::empty()
    } else if row_is_hit(rows.last(), lower_query) {
        hit_rows(rows.drop_last(), lower_query).push(rows.last())
    } else {
        hit_rows(rows.drop_last(), lower_query)
    }
}

/// `hit` shows `row`: same id, title and tags, and the row's excerpt.
pub open spec fn shows(hit: SearchResult, row: SearchRow, lower_query: Seq<char>) -> bool {
    &&& hit.id == row.id
    &&& hit.title@ == row.title@
    &&& hit.tags.deep_view() == row_tags(row)
    &&& row_excerpt(row, lower_query) == Some(hit.snippet@)
}

/// `hits` shows the hit rows of `rows`, one for one and in order.
pub open spec fn shows_hits(hits: Seq<SearchResult>, rows: Seq<SearchRow>, lower_query: Seq<char>) -> bool {
    let hr = hit_rows(rows, lower_query);
    &&& hits.len() == hr.len()
    &&& forall|k: int| 0 <= k < hits.len() ==> shows(#[trigger] hits[k], hr[k], lower_query)
}

/// `out` answers a search of `rows` for the lower-cased query: it is the
/// first page of the hits that show the hit rows.
pub open spec fn answers(rows: Seq<SearchRow>, lower_query: Seq<char>, out: Seq<SearchResult>) -> bool {
    exists|hits: Seq<SearchResult>| shows_hits(hits, rows, lower_query) && first_page(hits, out)
}

impl SearchQuery {
    /// A query is refused when `trim` leaves nothing of it.
    pub fn is_blank(&self) -> (res: bool)
        ensures
            res == is_blank(self.q@),
    {
        trims_to_empty(self.q.as_str())
    }
}

fn tag_scores(tags: &Vec<String>, lower_query: &str) -> (res: Vec<Option<i64>>)
    ensures
        res@ == tags.deep_view().map_values(|t: Seq<char>| skim_score(t, lower_query@)),
{
    let mut res: Vec<Option<i64>> = Vec::new();
    let n = tags.len();
    for k in 0..n
        invariant
            n == tags@.len(),
            res@.len() == k,
            forall|j: int| 0 <= j < k ==> res@[j] == skim_score(#[trigger] tags@[j]@, lower_query@),
    {
        res.push(fuzzy_score(tags[k].as_str(), lower_query));
    }
    assert(res@ =~= tags.deep_view().map_values(|t: Seq<char>| skim_score(t, lower_query@)));
    res
}

/// Scores one row against the lower-cased query: the hit it makes, if any,
/// or what goes wrong with it.
pub fn search_row(row: &SearchRow, lower_query: &str) -> (res: Result<Option<SearchResult>, SearchError>)
    ensures
        match res {
            Err(e) => row_failure(*row, lower_query@) == Some(e),
            Ok(None) => row_failure(*row, lower_query@) is None && !row_is_hit(*row, lower_query@),
            Ok(Some(hit)) => row_failure(*row, lower_query@) is None && row_is_hit(*row, lower_query@)
                && shows(hit, *row, lower_query@),
        },
{
    let tags = tags_from_json(row.tags.as_str());
    let title_score = fuzzy_score(row.title.as_str(), lower_query);
    let content_score = fuzzy_score(row.content.as_str(), lower_query);
    let scores = tag_scores(&tags, lower_query);
    let score = match relevance_score(title_score, content_score, &scores) {
        Some(s) => s,
        None => return Err(SearchError::ScoreOverflow),
    };
    if score > RELEVANCE_THRESHOLD {
        let lower_content = to_lowercase(row.content.as_str());
        match excerpt_of(row.content.as_str(), lower_content.as_str(), lower_query) {
            Some(snippet) => Ok(Some(SearchResult { id: row.id, title: row.title.clone(), tags, snippet })),
            None => Err(SearchError::ExcerptOutOfBounds),
        }
    } else {
        Ok(None)
    }
}

proof fn lemma_failure_step(rows: Seq<SearchRow>, lower_query: Seq<char>, i: int)
    requires
        0 <= i < rows.len(),
        first_failure(rows.take(i), lower_query) is None,
    ensures
        first_failure(rows.take(i + 1), lower_query) == row_failure(rows[i], lower_query),
{
    assert(rows.take(i + 1).drop_last() =~= rows.take(i));
}

proof fn lemma_shows_hits_step(
    rows: Seq<SearchRow>,
    lower_query: Seq<char>,
    i: int,
    hits: Seq<SearchResult>,
    hit: Option<SearchResult>,
)
    requires
        0 <= i < rows.len(),
        shows_hits(hits, rows.take(i), lower_query),
        hit is Some <==> row_is_hit(rows[i], lower_query),
        hit matches Some(h) ==> shows(h, rows[i], lower_query),
    ensures
        shows_hits(
            match hit {
                Some(h) => hits.push(h),
                None => hits,
            },
            rows.take(i + 1),
            lower_query,
        ),
{
    assert(rows.take(i + 1).drop_last() =~= rows.take(i));
    let hr = hit_rows(rows.take(i + 1), lower_query);
    let hr0 = hit_rows(rows.take(i), lower_query);
    if let Some(h) = hit {
        let hits2 = hits.push(h);
        assert(hr == hr0.push(rows[i]));
        assert forall|k: int| 0 <= k < hits2.len() implies shows(#[trigger] hits2[k], hr[k], lower_query) by {
            if k < hits.len() {
                assert(hits2[k] == hits[k]);
                assert(hr[k] == hr0[k]);
            }
        }
    } else {
        assert(hr == hr0);
    }
}

proof fn lemma_failure_persists(rows: Seq<SearchRow>, lower_query: Seq<char>, i: int, j: int)
    requires
        0 <= i <= j <= rows.len(),
        first_failure(rows.take(i), lower_query) is Some,
    ensures
        first_failure(rows.take(j), lower_query) == first_failure(rows.take(i), lower_query),
    decreases j - i,
{
    if j > i {
        lemma_failure_persists(rows, lower_query, i, j - 1);
        assert(rows.take(j).drop_last() =~= rows.take(j - 1));
    }
}

/// Searches the rows for a query: each row is scored against the lower-cased
/// query, the hits (relevance above the threshold) get an excerpt, and the
/// first page of them is returned, longest excerpt first. What goes wrong
/// first with a row, going through them in order, is the error.
pub fn search_rows(rows: &Vec<SearchRow>, query: &str) -> (res: Result<Vec<SearchResult>, SearchError>)
    ensures
        res matches Err(e) ==> first_failure(rows@, lowercase(query@)) == Some(e),
        res matches Ok(out) ==> first_failure(rows@, lowercase(query@)) is None,
        res matches Ok(out) ==> answers(rows@, lowercase(query@), out@),
{
    let lower_query = to_lowercase(query);
    let ghost lq = lower_query@;
    let mut hits: Vec<SearchResult> = Vec::new();
    let n = rows.len();
    assert(rows@.take(0) =~= Seq::<SearchRow>::empty());
    for i in 0..n
        invariant
            n == rows@.len(),
            lq == lowercase(query@),
            lower_query@ == lq,
            first_failure(rows@.take(i as int), lq) is None,
            shows_hits(hits@, rows@.take(i as int), lq),
    {
        let outcome = search_row(&rows[i], lower_query.as_str());
        proof {
            lemma_failure_step(rows@, lq, i as int);
        }
        match outcome {
            Err(e) => {
                proof {
                    lemma_failure_persists(rows@, lq, i + 1, n as int);
                    assert(rows@.take(n as int) =~= rows@);
                }
                return Err(e);
            },
            Ok(None) => {
                proof {
                    lemma_shows_hits_step(rows@, lq, i as int, hits@, None);
                }
            },
            Ok(Some(hit)) => {
                proof {
                    lemma_shows_hits_step(rows@, lq, i as int, hits@, Some(hit));
                }
                hits.push(hit);
            },
        }
    }
    assert(rows@.take(n as int) =~= rows@);
    let ghost found = hits@;
    let out = crate::ranking::rank_hits(hits);
    assert(shows_hits(found, rows@, lq) && first_page(found, out@));
    Ok(out)
}

} // verus!

verus! {

proof fn lemma_hit_rows_are_hits(rows: Seq<SearchRow>, lower_query: Seq<char>, j: int)
    requires
        0 <= j < hit_rows(rows, lower_query).len(),
    ensures
        exists|i: int|
            0 <= i < rows.len() && #[trigger] rows[i] == hit_rows(rows, lower_query)[j] && row_is_hit(
                rows[i],
                lower_query,
            ),
    decreases rows.len(),
{
    let prev = rows.drop_last();
    let hp = hit_rows(prev, lower_query);
    if j < hp.len() {
        lemma_hit_rows_are_hits(prev, lower_query, j);
        let i = choose|i: int| 0 <= i < prev.len() && #[trigger] prev[i] == hp[j] && row_is_hit(prev[i], lower_query);
        assert(rows[i] == prev[i]);
    } else {
        assert(rows[rows.len() - 1] == hit_rows(rows, lower_query)[j]);
    }
}

proof fn lemma_hits_are_hit_rows(rows: Seq<SearchRow>, lower_query: Seq<char>, i: int)
    requires
        0 <= i < rows.len(),
        row_is_hit(rows[i], lower_query),
    ensures
        exists|j: int|
            0 <= j < hit_rows(rows, lower_query).len() && #[trigger] hit_rows(rows, lower_query)[j]
                == rows[i],
    decreases rows.len(),
{
    let prev = rows.drop_last();
    let hp = hit_rows(prev, lower_query);
    if i < rows.len() - 1 {
        assert(prev[i] == rows[i]);
        lemma_hits_are_hit_rows(prev, lower_query, i);
        let j = choose|j: int| 0 <= j < hp.len() && #[trigger] hp[j] == prev[i];
        assert(hit_rows(rows, lower_query)[j] == hp[j]);
    } else {
        assert(hit_rows(rows, lower_query)[hp.len() as int] == rows[i]);
    }
}

/// `hit` shows a row of `rows` whose relevance exceeds the threshold.
pub open spec fn shows_some_hit_row(hit: SearchResult, rows: Seq<SearchRow>, lower_query: Seq<char>) -> bool {
    exists|i: int| 0 <= i < rows.len() && row_is_hit(rows[i], lower_query) && shows(hit, rows[i], lower_query)
}

/// Law: what a search answers. It holds as many hits as there are rows whose
/// relevance exceeds the threshold, but no more than `MAX_RESULTS`; the
/// longest excerpt comes first; and each hit shows one of those rows, with
/// that row's excerpt.
pub proof fn lemma_search_answer(rows: Seq<SearchRow>, lower_query: Seq<char>, out: Seq<SearchResult>)
    requires
        answers(rows, lower_query, out),
    ensures
        out.len() == if hit_rows(rows, lower_query).len() < MAX_RESULTS {
            hit_rows(rows, lower_query).len() as int
        } else {
            MAX_RESULTS as int
        },
        forall|a: int, b: int|
            0 <= a < b < out.len() ==> snippet_len(#[trigger] out[a]) >= snippet_len(#[trigger] out[b]),
        forall|k: int| 0 <= k < out.len() ==> shows_some_hit_row(#[trigger] out[k], rows, lower_query),
{
    let hits = choose|hits: Seq<SearchResult>| shows_hits(hits, rows, lower_query) && first_page(hits, out);
    let sorted = choose|sorted: Seq<SearchResult>|
        sorted_by_snippet_len(hits, sorted) && out == sorted.take(
            if hits.len() < MAX_RESULTS { hits.len() as int } else { MAX_RESULTS as int },
        );
    let p = choose|p: Seq<int>| stable_by_snippet_len(hits, sorted, p);
    let hr = hit_rows(rows, lower_query);
    assert forall|a: int, b: int| 0 <= a < b < out.len() implies snippet_len(#[trigger] out[a])
        >= snippet_len(#[trigger] out[b]) by {
        assert(out[a] == sorted[a] && out[b] == sorted[b]);
    }
    assert forall|k: int| 0 <= k < out.len() implies shows_some_hit_row(#[trigger] out[k], rows, lower_query) by {
        let j = p[k];
        assert(out[k] == hits[j]);
        assert(shows(hits[j], hr[j], lower_query));
        lemma_hit_rows_are_hits(rows, lower_query, j);
        let i = choose|i: int|
            0 <= i < rows.len() && #[trigger] rows[i] == hr[j] && row_is_hit(rows[i], lower_query);
        assert(row_is_hit(rows[i], lower_query) && shows(out[k], rows[i], lower_query));
    }
}

/// Law: when no more rows are hits than fit on the first page, the search
/// shows every one of them.
pub proof fn lemma_search_shows_every_hit(rows: Seq<SearchRow>, lower_query: Seq<char>, out: Seq<SearchResult>, i: int)
    requires
        answers(rows, lower_query, out),
        hit_rows(rows, lower_query).len() <= MAX_RESULTS,
        0 <= i < rows.len(),
        row_is_hit(rows[i], lower_query),
    ensures
        exists|k: int| 0 <= k < out.len() && shows(#[trigger] out[k], rows[i], lower_query),
{
    let hits = choose|hits: Seq<SearchResult>| shows_hits(hits, rows, lower_query) && first_page(hits, out);
    let sorted = choose|sorted: Seq<SearchResult>|
        sorted_by_snippet_len(hits, sorted) && out == sorted.take(
            if hits.len() < MAX_RESULTS { hits.len() as int } else { MAX_RESULTS as int },
        );
    let hr = hit_rows(rows, lower_query);
    lemma_hits_are_hit_rows(rows, lower_query, i);
    let j = choose|j: int| 0 <= j < hr.len() && #[trigger] hr[j] == rows[i];
    crate::ranking::lemma_sorting_keeps_every_hit(hits, sorted, j);
    let k = choose|k: int| 0 <= k < sorted.len() && sorted[k] == hits[j];
    assert(out[k] == sorted[k]);
    assert(shows(hits[j], hr[j], lower_query));
}

} // verus!

verus! {

/// Law: relevance adds up its sources independently of one another: a title
/// score `a` counts `3a`, a content score `b` counts `b`, each tag score `c`
/// counts `2c`, a missing score counts nothing, and the parts add up.
pub proof fn lemma_relevance_adds_up(
    title: Option<i64>,
    content: Option<i64>,
    tags: Seq<Option<i64>>,
    extra: Option<i64>,
    a: i64,
    b: i64,
    c: i64,
)
    ensures
        relevance(Some(a), None, Seq::empty()) == 3 * a,
        relevance(None, Some(b), Seq::empty()) == b,
        relevance(None, None, seq![Some(c)]) == 2 * c,
        relevance(None, None, seq![None]) == 0,
        relevance(None, None, Seq::empty()) == 0,
        relevance(title, content, tags) == relevance(title, None, Seq::empty()) + relevance(
            None,
            content,
            Seq::empty(),
        ) + relevance(None, None, tags),
        relevance(None, None, tags.push(extra)) == relevance(None, None, tags) + relevance(
            None,
            None,
            seq![extra],
        ),
{
    reveal_with_fuel(tag_total, 2);
    assert(seq![Some(c)].drop_last() =~= Seq::<Option<i64>>::empty());
    assert(seq![None::<i64>].drop_last() =~= Seq::<Option<i64>>::empty());
    assert(seq![extra].drop_last() =~= Seq::<Option<i64>>::empty());
    assert(tags.push(extra).drop_last() =~= tags);
}

proof fn lemma_tag_total_no_match(tags: Seq<Option<i64>>)
    requires
        forall|j: int| 0 <= j < tags.len() ==> tags[j] is None,
    ensures
        tag_total(tags) == 0,
    decreases tags.len(),
{
    if tags.len() > 0 {
        lemma_tag_total_no_match(tags.drop_last());
    }
}

proof fn lemma_tag_total_one_match(tags: Seq<Option<i64>>, k: int, s: i64)
    requires
        0 <= k < tags.len(),
        tags[k] == Some(s),
        forall|j: int| 0 <= j < tags.len() && j != k ==> tags[j] is None,
    ensures
        tag_total(tags) == 2 * s,
    decreases tags.len(),
{
    let prev = tags.drop_last();
    if k == tags.len() - 1 {
        lemma_tag_total_no_match(prev);
    } else {
        lemma_tag_total_one_match(prev, k, s);
    }
}

/// Law: every stored tag of a row counts. A row whose title and content do
/// not match and whose only matching stored tag is its `k`-th, with score
/// `s`, has relevance `2s`, whichever place `k` the tag has.
pub proof fn lemma_row_counts_every_tag(row: SearchRow, lower_query: Seq<char>, k: int, s: i64)
    requires
        skim_score(row.title@, lower_query) is None,
        skim_score(row.content@, lower_query) is None,
        0 <= k < stored_tags(row.tags@).len(),
        skim_score(stored_tags(row.tags@)[k], lower_query) == Some(s),
        forall|j: int|
            0 <= j < stored_tags(row.tags@).len() && j != k ==> skim_score(
                #[trigger] stored_tags(row.tags@)[j],
                lower_query,
            ) is None,
    ensures
        row_relevance(row, lower_query) == 2 * s,
        row_relevance(row, lower_query) > RELEVANCE_THRESHOLD <==> s > 10,
{
    let scores = row_tag_scores(row, lower_query);
    assert(scores.len() == stored_tags(row.tags@).len());
    assert forall|j: int| 0 <= j < scores.len() && j != k implies scores[j] is None by {
        assert(scores[j] == skim_score(stored_tags(row.tags@)[j], lower_query));
    }
    lemma_tag_total_one_match(scores, k, s);
}

/// Law: the relevance of a row is three times its title score, plus its
/// content score, plus twice the score of each of its stored tags, one
/// score per stored tag.
pub proof fn lemma_row_relevance_sources(row: SearchRow, lower_query: Seq<char>)
    ensures
        row_tag_scores(row, lower_query).len() == stored_tags(row.tags@).len(),
        forall|j: int|
            0 <= j < stored_tags(row.tags@).len() ==> #[trigger] row_tag_scores(row, lower_query)[j]
                == skim_score(stored_tags(row.tags@)[j], lower_query),
        row_relevance(row, lower_query) == relevance(
            skim_score(row.title@, lower_query),
            skim_score(row.content@, lower_query),
            stored_tags(row.tags@).map_values(|t: Seq<char>| skim_score(t, lower_query)),
        ),
{
}

/// Law: the excerpt is cut around the first match. When the lower-cased
/// query occurs in the lower-cased content at byte `p` and nowhere before,
/// the excerpt is the content from `p - CONTEXT_BYTES` (or its start) to
/// `CONTEXT_BYTES` past the match (or its end), marked `...` where cut, or
/// nothing when those bytes are not character boundaries in order.
pub proof fn lemma_excerpt_at_first_match(content: Seq<char>, lower_content: Seq<char>, lower_query: Seq<char>, p: int)
    requires
        occurs_at(encode_utf8(lower_content), encode_utf8(lower_query), p),
        forall|j: int| 0 <= j < p ==> !occurs_at(encode_utf8(lower_content), encode_utf8(lower_query), j),
    ensures
        ({
            let cb = encode_utf8(content);
            let start = if p >= 30 { p - 30 } else { 0 };
            let end = if p + encode_utf8(lower_query).len() + 30 < cb.len() {
                p + encode_utf8(lower_query).len() + 30
            } else {
                cb.len() as int
            };
            excerpt(content, lower_content, lower_query) == if start <= end && is_char_boundary(cb, start)
                && is_char_boundary(cb, end) {
                Some(
                    (if start > 0 { "..."@ } else { Seq::empty() }) + decode_utf8(cb.subrange(start, end))
                        + (if end < cb.len() { "..."@ } else { Seq::empty() }),
                )
            } else {
                None
            }
        }),
{
    let lb = encode_utf8(lower_content);
    let qb = encode_utf8(lower_query);
    let j = choose|j: int| occurs_at(lb, qb, j) && forall|k: int| 0 <= k < j ==> !occurs_at(lb, qb, k);
    assert(j == p);
}

/// Law: a match at the very start. When the lower-cased content begins with
/// the lower-cased query, the excerpt begins with the content itself: its
/// first bytes up to `CONTEXT_BYTES` past the match, `...` after them unless
/// they are all of it, or nothing when that end is not a character boundary.
pub proof fn lemma_excerpt_of_leading_match(content: Seq<char>, lower_content: Seq<char>, lower_query: Seq<char>)
    requires
        occurs_at(encode_utf8(lower_content), encode_utf8(lower_query), 0),
    ensures
        ({
            let cb = encode_utf8(content);
            let end: int = if encode_utf8(lower_query).len() + 30 < cb.len() {
                encode_utf8(lower_query).len() + 30int
            } else {
                cb.len() as int
            };
            excerpt(content, lower_content, lower_query) == if is_char_boundary(cb, end) {
                Some(decode_utf8(cb.subrange(0, end)) + (if end < cb.len() { "..."@ } else { Seq::empty() }))
            } else {
                None
            }
        }),
{
    broadcast use encode_utf8_valid_utf8, is_char_boundary_start_end_of_seq;

    lemma_excerpt_at_first_match(content, lower_content, lower_query, 0);
    let cb = encode_utf8(content);
    assert(is_char_boundary(cb, 0));
    assert(Seq::<char>::empty() + decode_utf8(cb.subrange(0, 0)) =~= decode_utf8(cb.subrange(0, 0)));
    assert forall|x: Seq<char>| Seq::<char>::empty() + x == x by {
        assert(Seq::<char>::empty() + x =~= x);
    }
}

/// Law: a page in which the lower-cased query does not occur is previewed
/// by its first `PREVIEW_CHARS` characters followed by `...`.
pub proof fn lemma_excerpt_without_match(content: Seq<char>, lower_content: Seq<char>, lower_query: Seq<char>)
    requires
        forall|j: int| !occurs_at(encode_utf8(lower_content), encode_utf8(lower_query), j),
    ensures
        excerpt(content, lower_content, lower_query) == Some(
            content.take(if content.len() < 100 { content.len() as int } else { 100 }) + "..."@,
        ),
{
}

} // verus!

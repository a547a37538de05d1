//! Search requests: the filters a user sets and the results shown.
use vstd::prelude::*;
use crate::db::models::FileRecord;

verus! {

/// Filters of a search: allowed extensions, a drive, and a result limit.
pub struct SearchFilters {
    pub extensions: Option<Vec<String>>,
    pub drive: Option<String>,
    pub max_results: Option<usize>,
}

/// One search result: the file's record and the matching snippet.
pub struct SearchResult {
    pub id: i64,
    pub path: String,
    pub filename: String,
    pub extension: String,
    pub size_bytes: i64,
    pub modified_at: String,
    pub snippet: String,
}

/// How many hits a search asks the index for (50 unless set).
pub fn search_limit(filters: &SearchFilters) -> (r: usize)
    ensures
        r == match filters.max_results { Some(n) => n, None => 50 },
{
    match filters.max_results {
        Some(n) => n,
        None => 50,
    }
}

/// A file passes the filters: its extension is among the allowed ones (when
/// a non-empty list is given) and it lies on the drive (when one is given).
pub open spec fn passes(filters: SearchFilters, r: FileRecord) -> bool {
    &&& match filters.extensions {
        Some(exts) => exts@.len() == 0 || exts@.map_values(|e: String| e@).contains(r.extension@),
        None => true,
    }
    &&& match filters.drive {
        Some(d) => d@.len() == 0 || r.drive@ == d@,
        None => true,
    }
}

/// The result shown for a file record and a snippet.
pub open spec fn result_of(r: FileRecord, snippet: String) -> SearchResult {
    SearchResult {
        id: match r.id { Some(i) => i, None => 0 },
        path: r.path,
        filename: r.filename,
        extension: r.extension,
        size_bytes: r.size_bytes,
        modified_at: r.modified_at,
        snippet,
    }
}

/// The results for the hits in order: each hit whose file is recorded and
/// passes the filters.
pub open spec fn results_of(snippets: Seq<String>, records: Seq<Option<FileRecord>>, filters: SearchFilters) -> Seq<SearchResult>
    decreases records.len(),
{
    if records.len() == 0 {
        Seq::empty()
    } else {
        let rest = results_of(snippets, records.drop_last(), filters);
        match records.last() {
            Some(r) => if passes(filters, r) {
                rest.push(result_of(r, snippets[records.len() - 1]))
            } else {
                rest
            },
            None => rest,
        }
    }
}

fn contains_text(list: &Vec<String>, s: &str) -> (r: bool)
    ensures
        r == list@.map_values(|e: String| e@).contains(s@),
{
    let ghost views = list@.map_values(|e: String| e@);
    let mut i: usize = 0;
    while i < list.len()
        invariant
            i <= list@.len(),
            views == list@.map_values(|e: String| e@),
            forall|j: int| 0 <= j < i ==> views[j] != s@,
        decreases list@.len() - i,
    {
        if crate::text::same_text(list[i].as_str(), s) {
            assert(views[i as int] == s@);
            return true;
        }
        i = i + 1;
    }
    false
}

/// Whether a file passes the filters.
pub fn passes_filters(filters: &SearchFilters, r: &FileRecord) -> (b: bool)
    ensures
        b == passes(*filters, *r),
{
    let ext_ok = match &filters.extensions {
        Some(exts) => exts.len() == 0 || contains_text(exts, r.extension.as_str()),
        None => true,
    };
    let drive_ok = match &filters.drive {
        Some(d) => d.as_str().is_empty() || crate::text::same_text(r.drive.as_str(), d.as_str()),
        None => true,
    };
    ext_ok && drive_ok
}

/// Joins the hits of a search (their snippets, in rank order) with the
/// records found for their paths, keeping the recorded files that pass the
/// filters.
pub fn build_search_results(snippets: &Vec<String>, records: &Vec<Option<FileRecord>>, filters: &SearchFilters) -> (r: Vec<SearchResult>)
    requires
        snippets@.len() == records@.len(),
    ensures
        r@ == results_of(snippets@, records@, *filters),
{
    let ghost recs = records@;
    let mut results: Vec<SearchResult> = Vec::new();
    let n = records.len();
    let mut i: usize = 0;
    while i < n
        invariant
            n == recs.len(),
            recs == records@,
            snippets@.len() == n,
            i <= n,
            results@ == results_of(snippets@, recs.take(i as int), *filters),
        decreases n - i,
    {
        proof {
            assert(recs.take(i + 1).drop_last() == recs.take(i as int));
            assert(recs.take(i + 1).last() == recs[i as int]);
        }
        match &records[i] {
            Some(rec) => {
                if passes_filters(filters, rec) {
                    let id = match rec.id { Some(x) => x, None => 0 };
                    results.push(SearchResult {
                        id,
                        path: rec.path.clone(),
                        filename: rec.filename.clone(),
                        extension: rec.extension.clone(),
                        size_bytes: rec.size_bytes,
                        modified_at: rec.modified_at.clone(),
                        snippet: snippets[i].clone(),
                    });
                }
            },
            None => {},
        }
        i = i + 1;
    }
    assert(recs.take(n as int) == recs);
    results
}

} // verus!

verus! {

/// Law: a search shows no more results than the index returned hits, and
/// each result is the record of a hit that passes the filters, with that
/// hit's snippet.
pub proof fn law_search_results_come_from_hits(snippets: Seq<String>, records: Seq<Option<FileRecord>>, filters: SearchFilters)
    requires
        snippets.len() == records.len(),
    ensures
        results_of(snippets, records, filters).len() <= records.len(),
        forall|k: int| #![trigger results_of(snippets, records, filters)[k]]
            0 <= k < results_of(snippets, records, filters).len() ==> exists|i: int|
            0 <= i < records.len() && (#[trigger] records[i]) is Some && passes(filters, records[i]->0)
                && results_of(snippets, records, filters)[k] == result_of(records[i]->0, snippets[i]),
    decreases records.len(),
{
    if records.len() > 0 {
        let pre = records.drop_last();
        law_search_results_come_from_hits(snippets.drop_last(), pre, filters);
        assert(results_of(snippets.drop_last(), pre, filters) == results_of(snippets, pre, filters)) by {
            lemma_results_prefix_snippets(snippets, pre, filters);
        }
    }
}

proof fn lemma_results_prefix_snippets(snippets: Seq<String>, records: Seq<Option<FileRecord>>, filters: SearchFilters)
    requires
        records.len() < snippets.len(),
    ensures
        results_of(snippets.drop_last(), records, filters) == results_of(snippets, records, filters),
    decreases records.len(),
{
    if records.len() > 0 {
        lemma_results_prefix_snippets(snippets, records.drop_last(), filters);
    }
}

} // verus!

verus! {

/// Law: each filter given excludes what it names. A file whose extension
/// is not in a non-empty extension list, or whose drive differs from a
/// non-empty drive filter, is not shown; a file whose extension is in the
/// list and that lies on the drive is; and without filters every file is.
pub proof fn law_filters_exclude_what_they_name(filters: SearchFilters, r: FileRecord)
    ensures
        (filters.extensions matches Some(exts) && exts@.len() > 0
            && !exts@.map_values(|e: String| e@).contains(r.extension@)) ==> !passes(filters, r),
        (filters.drive matches Some(d) && d@.len() > 0 && r.drive@ != d@) ==> !passes(filters, r),
        (filters.extensions matches Some(exts) && exts@.map_values(|e: String| e@).contains(r.extension@))
            && (filters.drive matches Some(d) && r.drive@ == d@) ==> passes(filters, r),
        filters.extensions is None && filters.drive is None ==> passes(filters, r),
{
}

} // verus!

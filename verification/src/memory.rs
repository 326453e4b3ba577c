//! The records of the memory store (facts and conversation summaries) and
//! how a memory search presents them.  The store itself is a database on
//! disk, kept by the application around this library.
use vstd::prelude::*;
use crate::models::SearchResult;
use crate::text::{push_str, string_from_chars};

verus! {

/// A remembered fact (or summary, or piece of knowledge).
#[derive(Debug)]
pub struct Memory {
    pub id: i64,
    pub tool_id: String,
    pub session_id: Option<String>,
    /// `fact`, `summary` or `knowledge`.
    pub memory_type: String,
    pub content: String,
    /// Comma-separated.
    pub keywords: String,
    /// Comma-separated.
    pub entities: String,
    pub created_at: String,
}

/// The remembered summary of a saved conversation.
#[derive(Debug)]
pub struct SessionSummary {
    pub session_id: String,
    pub tool_id: String,
    pub title: String,
    pub summary: String,
    pub created_at: String,
    pub updated_at: String,
}

/// The pattern a search matches text against: the query anywhere in it.
pub open spec fn like_pattern_spec(query: Seq<char>) -> Seq<char> {
    "%"@ + query + "%"@
}

/// The `LIKE` pattern for `query`.
pub fn like_pattern(query: &str) -> (r: String)
    ensures
        r@ == like_pattern_spec(query@),
{
    let mut m: Vec<char> = Vec::new();
    push_str(&mut m, "%");
    push_str(&mut m, query);
    push_str(&mut m, "%");
    assert(m@ =~= like_pattern_spec(query@));
    string_from_chars(m.as_slice())
}

/// The tool a memory search is narrowed to: none when the id is absent or
/// empty.
pub fn tool_filter(tool_id: Option<String>) -> (r: Option<String>)
    ensures
        match tool_id {
            Some(t) => if t@.len() > 0 { r == Some(t) } else { r is None },
            None => r is None,
        },
{
    match tool_id {
        Some(t) => if t.as_str().is_empty() {
            None
        } else {
            Some(t)
        },
        None => None,
    }
}

/// How a conversation summary reads among search hits: `[Conv] title: summary`.
pub open spec fn summary_hit_text(s: SessionSummary) -> Seq<char> {
    "[Conv] "@ + s.title@ + ": "@ + s.summary@
}

/// `r` is the hit for the fact `m`.
pub open spec fn memory_hit(m: Memory, r: SearchResult) -> bool {
    r.content == m.content && r.source == m.tool_id && r.timestamp == m.created_at
}

/// `r` is the hit for the summary `s`.
pub open spec fn summary_hit(s: SessionSummary, r: SearchResult) -> bool {
    r.content@ == summary_hit_text(s) && r.source == s.tool_id && r.timestamp == s.updated_at
}

/// The hits of a memory search: the facts found, in order, then the
/// conversation summaries found, in order.
pub fn memory_search_results(memories: Vec<Memory>, summaries: Vec<SessionSummary>) -> (r: Vec<SearchResult>)
    ensures
        r@.len() == memories@.len() + summaries@.len(),
        forall|i: int| 0 <= i < memories@.len() ==> memory_hit(memories@[i], #[trigger] r@[i]),
        forall|j: int|
            0 <= j < summaries@.len() ==> summary_hit(summaries@[j], #[trigger] r@[memories@.len() + j]),
{
    let ghost ms = memories@;
    let ghost ss = summaries@;
    let mut out: Vec<SearchResult> = Vec::new();
    let mut memories = memories;
    let mut summaries = summaries;
    let n = memories.len();
    let mut i: usize = 0;
    while i < n
        invariant
            n == ms.len(),
            i <= n,
            memories@ == ms.subrange(i as int, n as int),
            out@.len() == i,
            forall|k: int| 0 <= k < i ==> memory_hit(ms[k], #[trigger] out@[k]),
        decreases n - i,
    {
        let m = memories.remove(0);
        assert(m == ms[i as int]);
        out.push(SearchResult { content: m.content, source: m.tool_id, timestamp: m.created_at });
        i = i + 1;
    }
    let sn = summaries.len();
    let mut j: usize = 0;
    while j < sn
        invariant
            n == ms.len(),
            sn == ss.len(),
            j <= sn,
            summaries@ == ss.subrange(j as int, sn as int),
            out@.len() == n + j,
            forall|k: int| 0 <= k < n ==> memory_hit(ms[k], #[trigger] out@[k]),
            forall|k: int| 0 <= k < j ==> summary_hit(ss[k], #[trigger] out@[n + k]),
        decreases sn - j,
    {
        let s = summaries.remove(0);
        assert(s == ss[j as int]);
        let mut c: Vec<char> = Vec::new();
        push_str(&mut c, "[Conv] ");
        push_str(&mut c, s.title.as_str());
        push_str(&mut c, ": ");
        push_str(&mut c, s.summary.as_str());
        assert(c@ =~= summary_hit_text(s));
        out.push(SearchResult { content: string_from_chars(c.as_slice()), source: s.tool_id, timestamp: s.updated_at });
        proof {
            assert forall|k: int| 0 <= k < j + 1 implies summary_hit(ss[k], #[trigger] out@[n + k]) by {
                if k == j {
                    assert(out@[n + k] == out@[out@.len() - 1]);
                }
            }
        }
        j = j + 1;
    }
    out
}

} // verus!

//! Shared knowledge base: documents, their search (case-insensitive text
//! match, most recently updated first), the topics their tags form, and the
//! context text injected into prompts.
use vstd::prelude::*;
use crate::order::{is_sorted_perm, sort_desc_indices};
use crate::text::{
    append_chars, char_count_at_byte, chars_of, contains_chars, decimal, is_boundary,
    lemma_utf8_len_take_mono, lowercase_chars, push_decimal, push_str, seq_contains,
    spec_lowercase, split_char, split_chars, string_from_chars, take_chars, trim, trim_chars,
    utf8_len, utf8_len_exceeds, all_ascii, ascii_lower, is_ws, trim_start, trim_end, has_char,
};

verus! {

/// A document of the knowledge base.
#[derive(Debug)]
pub struct KnowledgeDoc {
    pub id: String,
    pub title: String,
    pub content: String,
    pub tags: String,
    pub source: String,
    pub created_at: String,
    pub updated_at: String,
}

impl Clone for KnowledgeDoc {
    fn clone(&self) -> (r: Self)
        ensures
            r == *self,
    {
        KnowledgeDoc {
            id: self.id.clone(),
            title: self.title.clone(),
            content: self.content.clone(),
            tags: self.tags.clone(),
            source: self.source.clone(),
            created_at: self.created_at.clone(),
            updated_at: self.updated_at.clone(),
        }
    }
}

/// The topics of the knowledge base.
#[derive(Debug)]
pub struct KnowledgeIndex {
    pub topics: Vec<Topic>,
}

/// A tag and the number of documents tagged with it.
#[derive(Debug)]
pub struct Topic {
    pub name: String,
    pub description: String,
    pub doc_count: usize,
}

/// The text a query is matched against: title, content, tags and source,
/// separated by spaces.
pub open spec fn search_text(d: KnowledgeDoc) -> Seq<char> {
    d.title@ + " "@ + d.content@ + " "@ + d.tags@ + " "@ + d.source@
}

/// The test that a document matches the lowercase query `pattern`: an empty
/// pattern matches every document; otherwise the lowercase search text must
/// contain it.
pub open spec fn matches_pattern(pattern: Seq<char>) -> spec_fn(KnowledgeDoc) -> bool {
    |d: KnowledgeDoc| pattern.len() == 0 || seq_contains(spec_lowercase(search_text(d)), pattern)
}

/// The documents that match `query`, in their given order.
pub open spec fn matching(docs: Seq<KnowledgeDoc>, query: Seq<char>) -> Seq<KnowledgeDoc> {
    docs.filter(matches_pattern(spec_lowercase(query)))
}

/// The update times of documents.
pub open spec fn update_keys(docs: Seq<KnowledgeDoc>) -> Seq<Seq<char>> {
    docs.map_values(|d: KnowledgeDoc| d.updated_at@)
}

/// `r` is the answer to a search: the matching documents, most recently
/// updated first (documents updated at the same time keep their order), at
/// most `limit` of them.
pub open spec fn search_result(docs: Seq<KnowledgeDoc>, query: Seq<char>, limit: usize, r: Seq<KnowledgeDoc>) -> bool {
    let m = matching(docs, query);
    &&& r.len() == (if limit < m.len() { limit as int } else { m.len() as int })
    &&& exists|p: Seq<usize>| #[trigger] is_sorted_perm(update_keys(m), p) && forall|i: int| 0 <= i < r.len() ==> #[trigger] r[i] == m[p[i] as int]
}

/// The ASCII lowercase of a text: `A` to `Z` lowered, all else unchanged.
pub open spec fn ascii_lowered(s: Seq<char>) -> Seq<char> {
    s.map_values(|c: char| ascii_lower(c))
}

/// The lowercase form the search used for `s` is its ASCII lowercase when
/// `s` is ASCII.
pub open spec fn lowered_as_ascii(s: Seq<char>) -> bool {
    all_ascii(s) ==> spec_lowercase(s) == ascii_lowered(s)
}

/// Searches the documents for `query` (case-insensitive), most recently
/// updated first, keeping at most `limit` results.  The lowercase forms it
/// compared are the ASCII lowercase of ASCII texts.
pub fn search(docs: &Vec<KnowledgeDoc>, query: &str, limit: usize) -> (r: Vec<KnowledgeDoc>)
    ensures
        search_result(docs@, query@, limit, r@),
        lowered_as_ascii(query@),
        forall|i: int| 0 <= i < docs@.len() ==> lowered_as_ascii(search_text(#[trigger] docs@[i])),
{
    let qc = chars_of(query);
    let pattern = lowercase_chars(qc.as_slice());
    assert(lowered_as_ascii(query@));
    let ghost pred = matches_pattern(pattern@);
    let mut m: Vec<KnowledgeDoc> = Vec::new();
    let n = docs.len();
    let mut i: usize = 0;
    while i < n
        invariant
            n == docs@.len(),
            i <= n,
            pattern@ == spec_lowercase(query@),
            pred == matches_pattern(pattern@),
            m@ == docs@.take(i as int).filter(pred),
            lowered_as_ascii(query@),
            forall|k: int| 0 <= k < i ==> lowered_as_ascii(search_text(#[trigger] docs@[k])),
        decreases n - i,
    {
        let d = &docs[i];
        let mut t: Vec<char> = Vec::new();
        push_str(&mut t, d.title.as_str());
        push_str(&mut t, " ");
        push_str(&mut t, d.content.as_str());
        push_str(&mut t, " ");
        push_str(&mut t, d.tags.as_str());
        push_str(&mut t, " ");
        push_str(&mut t, d.source.as_str());
        assert(t@ =~= search_text(*d));
        let tl = lowercase_chars(t.as_slice());
        assert(lowered_as_ascii(search_text(docs@[i as int])));
        let keep = pattern.len() == 0 || contains_chars(tl.as_slice(), pattern.as_slice());
        proof {
            assert(docs@.take(i + 1).drop_last() =~= docs@.take(i as int));
            reveal_with_fuel(Seq::<_>::filter, 1);
            assert(keep == pred(docs@[i as int]));
        }
        if keep {
            m.push(d.clone());
        }
        i = i + 1;
    }
    assert(docs@.take(n as int) =~= docs@);
    assert(m@ == matching(docs@, query@));
    // order by update time, most recent first
    let mut keys: Vec<Vec<char>> = Vec::new();
    let mn = m.len();
    let mut j: usize = 0;
    while j < mn
        invariant
            mn == m@.len(),
            j <= mn,
            keys@.len() == j,
            forall|k: int| 0 <= k < j ==> (#[trigger] keys@[k])@ == m@[k].updated_at@,
        decreases mn - j,
    {
        keys.push(chars_of(m[j].updated_at.as_str()));
        j = j + 1;
    }
    assert(keys@.map_values(|k: Vec<char>| k@) =~= update_keys(m@));
    let p = sort_desc_indices(&keys);
    let take = if limit < mn { limit } else { mn };
    let mut out: Vec<KnowledgeDoc> = Vec::new();
    let mut k: usize = 0;
    while k < take
        invariant
            take <= mn,
            mn == m@.len(),
            is_sorted_perm(update_keys(m@), p@),
            k <= take,
            out@.len() == k,
            forall|a: int| 0 <= a < k ==> #[trigger] out@[a] == m@[p@[a] as int],
        decreases take - k,
    {
        let idx = p[k];
        out.push(m[idx].clone());
        k = k + 1;
    }
    assert(m@ == matching(docs@, query@));
    assert(out@.len() == (if limit < m@.len() { limit as int } else { m@.len() as int }));
    assert(is_sorted_perm(update_keys(m@), p@) && forall|a: int| 0 <= a < out@.len() ==> #[trigger] out@[a] == m@[p@[a] as int]);
    out
}

/// Every character of the document's title, content, tags and source is ASCII.
pub open spec fn doc_ascii(d: KnowledgeDoc) -> bool {
    all_ascii(d.title@) && all_ascii(d.content@) && all_ascii(d.tags@) && all_ascii(d.source@)
}

/// `field`, case ignored, contains `query`, case ignored.
pub open spec fn field_has(field: Seq<char>, query: Seq<char>) -> bool {
    seq_contains(ascii_lowered(field), ascii_lowered(query))
}

/// A document whose title, content, tags or source contains the query, case
/// ignored, is found by a search whose limit leaves room for every document.
/// (Stated for ASCII texts, whose lowercase form is known; `r` is what
/// `search` gave, with what it states of the lowercase forms it compared.)
pub proof fn law_field_match_is_found(docs: Seq<KnowledgeDoc>, query: Seq<char>, limit: usize, r: Seq<KnowledgeDoc>, i: int)
    requires
        search_result(docs, query, limit, r),
        lowered_as_ascii(query),
        forall|k: int| 0 <= k < docs.len() ==> lowered_as_ascii(search_text(#[trigger] docs[k])),
        docs.len() <= limit,
        0 <= i < docs.len(),
        doc_ascii(docs[i]),
        all_ascii(query),
        query.len() > 0,
        field_has(docs[i].title@, query) || field_has(docs[i].content@, query)
            || field_has(docs[i].tags@, query) || field_has(docs[i].source@, query),
    ensures
        r.contains(docs[i]),
{
    let d = docs[i];
    let q = ascii_lowered(query);
    reveal_strlit(" ");
    let sp = " "@;
    let t1 = d.title@;
    let t2 = d.content@;
    let t3 = d.tags@;
    let t4 = d.source@;
    let st = search_text(d);
    assert(st =~= t1 + sp + t2 + sp + t3 + sp + t4);
    assert(all_ascii(st)) by {
        assert forall|k: int| 0 <= k < st.len() implies (#[trigger] st[k] as u32) < 128 by {
            if k < t1.len() {
                assert(st[k] == t1[k]);
            } else if k < t1.len() + 1 {
                assert(st[k] == ' ');
            } else if k < t1.len() + 1 + t2.len() {
                assert(st[k] == t2[k - t1.len() - 1]);
            } else if k < t1.len() + 2 + t2.len() {
                assert(st[k] == ' ');
            } else if k < t1.len() + 2 + t2.len() + t3.len() {
                assert(st[k] == t3[k - t1.len() - 2 - t2.len()]);
            } else if k < t1.len() + 3 + t2.len() + t3.len() {
                assert(st[k] == ' ');
            } else {
                assert(st[k] == t4[k - t1.len() - 3 - t2.len() - t3.len()]);
            }
        }
    }
    let lo = ascii_lowered(st);
    assert(spec_lowercase(st) == lo);
    assert(spec_lowercase(query) == q);
    // the lowered text holds each lowered field at its place
    let o2 = (t1.len() + 1) as int;
    let o3 = (t1.len() + 2 + t2.len()) as int;
    let o4 = (t1.len() + 3 + t2.len() + t3.len()) as int;
    assert(lo.subrange(0, t1.len() as int) =~= ascii_lowered(t1));
    assert(lo.subrange(o2, o2 + t2.len()) =~= ascii_lowered(t2));
    assert(lo.subrange(o3, o3 + t3.len()) =~= ascii_lowered(t3));
    assert(lo.subrange(o4, o4 + t4.len()) =~= ascii_lowered(t4));
    assert(seq_contains(lo, q)) by {
        if field_has(t1, query) {
            let j = choose|j: int| 0 <= j && j + q.len() <= ascii_lowered(t1).len() && #[trigger] ascii_lowered(t1).subrange(j, j + q.len()) == q;
            assert(lo.subrange(j, j + q.len()) =~= ascii_lowered(t1).subrange(j, j + q.len()));
        } else if field_has(t2, query) {
            let j = choose|j: int| 0 <= j && j + q.len() <= ascii_lowered(t2).len() && #[trigger] ascii_lowered(t2).subrange(j, j + q.len()) == q;
            assert(lo.subrange(o2 + j, o2 + j + q.len()) =~= ascii_lowered(t2).subrange(j, j + q.len()));
        } else if field_has(t3, query) {
            let j = choose|j: int| 0 <= j && j + q.len() <= ascii_lowered(t3).len() && #[trigger] ascii_lowered(t3).subrange(j, j + q.len()) == q;
            assert(lo.subrange(o3 + j, o3 + j + q.len()) =~= ascii_lowered(t3).subrange(j, j + q.len()));
        } else {
            let j = choose|j: int| 0 <= j && j + q.len() <= ascii_lowered(t4).len() && #[trigger] ascii_lowered(t4).subrange(j, j + q.len()) == q;
            assert(lo.subrange(o4 + j, o4 + j + q.len()) =~= ascii_lowered(t4).subrange(j, j + q.len()));
        }
    }
    let pred = matches_pattern(spec_lowercase(query));
    assert(pred(d));
    docs.lemma_filter_contains(pred, i);
    let m = matching(docs, query);
    docs.lemma_filter_len(pred);
    assert(r.len() == m.len());
    let j = choose|j: int| 0 <= j < m.len() && m[j] == d;
    let p = choose|p: Seq<usize>| #[trigger] is_sorted_perm(update_keys(m), p) && forall|a: int| 0 <= a < r.len() ==> #[trigger] r[a] == m[p[a] as int];
    crate::order::lemma_sorted_perm_onto(update_keys(m), p, j);
    let k = choose|k: int| 0 <= k < p.len() && #[trigger] p[k] as int == j;
    assert(r[k] == d);
}

/// What a search returns are documents of the list, most recently updated
/// first; for ASCII texts and a non-empty query, each holds the query, case
/// ignored, in its title, content, tags and source joined by spaces.  (`r` is
/// what `search` gave, with what it states of the lowercase forms it
/// compared.)
pub proof fn law_results_match_newest_first(docs: Seq<KnowledgeDoc>, query: Seq<char>, limit: usize, r: Seq<KnowledgeDoc>)
    requires
        search_result(docs, query, limit, r),
        lowered_as_ascii(query),
        forall|k: int| 0 <= k < docs.len() ==> lowered_as_ascii(search_text(#[trigger] docs[k])),
    ensures
        r.len() <= limit,
        forall|k: int| 0 <= k < r.len() ==> docs.contains(#[trigger] r[k]),
        forall|k: int, l: int| 0 <= k < l < r.len() ==> !crate::order::lex_lt((#[trigger] r[k]).updated_at@, (#[trigger] r[l]).updated_at@),
        forall|k: int| 0 <= k < r.len() && all_ascii(query) && query.len() > 0 && doc_ascii(#[trigger] r[k]) ==> seq_contains(
            ascii_lowered(r[k].title@ + " "@ + r[k].content@ + " "@ + r[k].tags@ + " "@ + r[k].source@),
            ascii_lowered(query),
        ),
{
    let m = matching(docs, query);
    let pred = matches_pattern(spec_lowercase(query));
    let p = choose|p: Seq<usize>| #[trigger] is_sorted_perm(update_keys(m), p) && forall|a: int| 0 <= a < r.len() ==> #[trigger] r[a] == m[p[a] as int];
    let keys = update_keys(m);
    assert forall|k: int| 0 <= k < r.len() implies docs.contains(#[trigger] r[k]) by {
        let j = p[k] as int;
        assert(m.contains(m[j]));
        docs.lemma_filter_contains_rev(pred, m[j]);
    }
    assert forall|k: int, l: int| 0 <= k < l < r.len() implies !crate::order::lex_lt((#[trigger] r[k]).updated_at@, (#[trigger] r[l]).updated_at@) by {
        let a = p[k] as int;
        let b = p[l] as int;
        assert(crate::order::before(keys, a, b));
        assert(keys[a] == r[k].updated_at@);
        assert(keys[b] == r[l].updated_at@);
        crate::order::lemma_lex_irreflexive(keys[a]);
        if crate::order::lex_lt(keys[a], keys[b]) && crate::order::lex_lt(keys[b], keys[a]) {
            crate::order::lemma_lex_transitive(keys[a], keys[b], keys[a]);
        }
    }
    assert forall|k: int| 0 <= k < r.len() && all_ascii(query) && query.len() > 0 && doc_ascii(#[trigger] r[k]) implies seq_contains(
        ascii_lowered(r[k].title@ + " "@ + r[k].content@ + " "@ + r[k].tags@ + " "@ + r[k].source@),
        ascii_lowered(query),
    ) by {
        let j = p[k] as int;
        let d = r[k];
        docs.lemma_filter_pred(pred, j);
        assert(m.contains(m[j]));
        docs.lemma_filter_contains_rev(pred, m[j]);
        let i = choose|i: int| 0 <= i < docs.len() && docs[i] == d;
        assert(lowered_as_ascii(search_text(docs[i])));
        reveal_strlit(" ");
        let st = search_text(d);
        let t1 = d.title@;
        let t2 = d.content@;
        let t3 = d.tags@;
        let t4 = d.source@;
        assert(all_ascii(st)) by {
            assert forall|c: int| 0 <= c < st.len() implies (#[trigger] st[c] as u32) < 128 by {
                if c < t1.len() {
                    assert(st[c] == t1[c]);
                } else if c < t1.len() + 1 {
                    assert(st[c] == ' ');
                } else if c < t1.len() + 1 + t2.len() {
                    assert(st[c] == t2[c - t1.len() - 1]);
                } else if c < t1.len() + 2 + t2.len() {
                    assert(st[c] == ' ');
                } else if c < t1.len() + 2 + t2.len() + t3.len() {
                    assert(st[c] == t3[c - t1.len() - 2 - t2.len()]);
                } else if c < t1.len() + 3 + t2.len() + t3.len() {
                    assert(st[c] == ' ');
                } else {
                    assert(st[c] == t4[c - t1.len() - 3 - t2.len() - t3.len()]);
                }
            }
        }
        assert(ascii_lowered(query).len() > 0);
    }
}

// ───────────────────────── topics ─────────────────────────

/// The tags of a document: its `tags` text split at commas, trimmed, empty
/// pieces dropped.
pub open spec fn doc_tags(d: KnowledgeDoc) -> Seq<Seq<char>> {
    split_char(d.tags@, ',').map_values(|t: Seq<char>| trim(t)).filter(|t: Seq<char>| t.len() > 0)
}

/// The tags of all documents, in order.
pub open spec fn all_tags(docs: Seq<KnowledgeDoc>) -> Seq<Seq<char>>
    decreases docs.len(),
{
    if docs.len() == 0 {
        Seq::<Seq<char>>::empty()
    } else {
        all_tags(docs.drop_last()) + doc_tags(docs.last())
    }
}

/// How often `x` occurs in `s`.
pub open spec fn count(s: Seq<Seq<char>>, x: Seq<char>) -> nat
    decreases s.len(),
{
    if s.len() == 0 {
        0
    } else {
        count(s.drop_last(), x) + (if s.last() == x { 1nat } else { 0nat })
    }
}

/// The description of the topic for a tag.
pub open spec fn topic_description(tag: Seq<char>) -> Seq<char> {
    "Docs tagged '"@ + tag + "'"@
}

/// `topics` are exactly the distinct tags of `tags`, each described and
/// counted.
pub open spec fn topics_of(tags: Seq<Seq<char>>, topics: Seq<Topic>) -> bool {
    &&& forall|i: int, j: int| 0 <= i < topics.len() && 0 <= j < topics.len() && i != j ==> (#[trigger] topics[i]).name@ != (#[trigger] topics[j]).name@
    &&& forall|i: int| 0 <= i < topics.len() ==> tags.contains((#[trigger] topics[i]).name@)
    &&& forall|i: int| 0 <= i < topics.len() ==> (#[trigger] topics[i]).description@ == topic_description(topics[i].name@)
    &&& forall|i: int| 0 <= i < topics.len() ==> (#[trigger] topics[i]).doc_count == count(tags, topics[i].name@)
    &&& forall|k: int| 0 <= k < tags.len() ==> exists|i: int| 0 <= i < topics.len() && (#[trigger] topics[i]).name@ == #[trigger] tags[k]
}

proof fn lemma_count_le(s: Seq<Seq<char>>, x: Seq<char>)
    ensures
        count(s, x) <= s.len(),
    decreases s.len(),
{
    if s.len() > 0 {
        lemma_count_le(s.drop_last(), x);
    }
}

proof fn lemma_count_absent(s: Seq<Seq<char>>, x: Seq<char>)
    requires
        !s.contains(x),
    ensures
        count(s, x) == 0,
    decreases s.len(),
{
    if s.len() > 0 {
        assert(!s.drop_last().contains(x)) by {
            if s.drop_last().contains(x) {
                let k = choose|k: int| 0 <= k < s.drop_last().len() && s.drop_last()[k] == x;
                assert(s[k] == x);
            }
        }
        lemma_count_absent(s.drop_last(), x);
    }
}

/// `t` is not empty and neither starts nor ends with whitespace.
pub open spec fn bare_word(t: Seq<char>) -> bool {
    t.len() > 0 && !is_ws(t[0]) && !is_ws(t.last())
}

proof fn lemma_trim_start_edge(s: Seq<char>)
    ensures
        trim_start(s).len() > 0 ==> !is_ws(trim_start(s)[0]),
    decreases s.len(),
{
    if s.len() > 0 && is_ws(s[0]) {
        lemma_trim_start_edge(s.drop_first());
    }
}

proof fn lemma_trim_end_edges(s: Seq<char>)
    ensures
        trim_end(s).len() <= s.len(),
        trim_end(s) =~= s.subrange(0, trim_end(s).len() as int),
        trim_end(s).len() > 0 ==> !is_ws(trim_end(s).last()),
    decreases s.len(),
{
    if s.len() > 0 && is_ws(s.last()) {
        lemma_trim_end_edges(s.drop_last());
    }
}

/// A trimmed piece that is not empty is a bare word.
proof fn lemma_trim_bare(s: Seq<char>)
    ensures
        trim(s).len() > 0 ==> bare_word(trim(s)),
{
    lemma_trim_start_edge(s);
    lemma_trim_end_edges(trim_start(s));
    let a = trim_start(s);
    if trim(s).len() > 0 {
        assert(trim(s)[0] == a[0]);
    }
}

/// Every tag of every document is a bare word.
proof fn lemma_all_tags_bare(docs: Seq<KnowledgeDoc>)
    ensures
        forall|k: int| 0 <= k < all_tags(docs).len() ==> bare_word(#[trigger] all_tags(docs)[k]),
    decreases docs.len(),
{
    if docs.len() > 0 {
        lemma_all_tags_bare(docs.drop_last());
        let d = docs.last();
        let pieces = split_char(d.tags@, ',').map_values(|t: Seq<char>| trim(t));
        let keep = |t: Seq<char>| t.len() > 0;
        let a = all_tags(docs.drop_last());
        assert forall|k: int| 0 <= k < all_tags(docs).len() implies bare_word(#[trigger] all_tags(docs)[k]) by {
            if k < a.len() {
                assert(all_tags(docs)[k] == a[k]);
            } else {
                let j = k - a.len();
                assert(all_tags(docs)[k] == doc_tags(d)[j]);
                pieces.lemma_filter_pred(keep, j);
                let x = doc_tags(d)[j];
                assert(pieces.filter(keep).contains(x));
                pieces.lemma_filter_contains_rev(keep, x);
                let w = choose|w: int| 0 <= w < pieces.len() && pieces[w] == x;
                lemma_trim_bare(split_char(d.tags@, ',')[w]);
            }
        }
    }
}

/// Every topic name is a bare word: tags are trimmed, so no topic starts or
/// ends with whitespace, and none is empty.
pub proof fn law_topic_names_are_bare(docs: Seq<KnowledgeDoc>, topics: Seq<Topic>)
    requires
        topics_of(all_tags(docs), topics),
    ensures
        forall|i: int| 0 <= i < topics.len() ==> bare_word(#[trigger] topics[i].name@),
{
    lemma_all_tags_bare(docs);
    assert forall|i: int| 0 <= i < topics.len() implies bare_word(#[trigger] topics[i].name@) by {
        let tags = all_tags(docs);
        assert(tags.contains(topics[i].name@));
        let k = choose|k: int| 0 <= k < tags.len() && tags[k] == topics[i].name@;
        assert(bare_word(tags[k]));
    }
}

/// The comma-separated tags of `a` and `b` are the same once each is trimmed
/// (they differ at most in the spaces around each tag).
pub open spec fn same_tags_up_to_spacing(a: KnowledgeDoc, b: KnowledgeDoc) -> bool {
    let pa = split_char(a.tags@, ',');
    let pb = split_char(b.tags@, ',');
    &&& pa.len() == pb.len()
    &&& forall|k: int| 0 <= k < pa.len() ==> trim(#[trigger] pa[k]) == trim(pb[k])
}

/// `topics` has a topic named `name` counted `n` times.
pub open spec fn has_topic(topics: Seq<Topic>, name: Seq<char>, n: usize) -> bool {
    exists|j: int| 0 <= j < topics.len() && (#[trigger] topics[j]).name@ == name && topics[j].doc_count == n
}

/// Spaces around tags do not change the topics: two document lists whose
/// tags differ only in the spaces around each tag give the same topics, with
/// the same counts.
pub proof fn law_topics_ignore_tag_spacing(docs1: Seq<KnowledgeDoc>, docs2: Seq<KnowledgeDoc>, t1: Seq<Topic>, t2: Seq<Topic>)
    requires
        docs1.len() == docs2.len(),
        forall|i: int| 0 <= i < docs1.len() ==> same_tags_up_to_spacing(#[trigger] docs1[i], docs2[i]),
        topics_of(all_tags(docs1), t1),
        topics_of(all_tags(docs2), t2),
    ensures
        forall|i: int| 0 <= i < t1.len() ==> has_topic(t2, (#[trigger] t1[i]).name@, t1[i].doc_count),
        forall|j: int| 0 <= j < t2.len() ==> has_topic(t1, (#[trigger] t2[j]).name@, t2[j].doc_count),
{
    lemma_all_tags_spacing(docs1, docs2);
    lemma_same_tags_same_topics(all_tags(docs1), t1, t2);
    lemma_same_tags_same_topics(all_tags(docs1), t2, t1);
}

/// Two topic lists of the same tags name the same topics with the same counts.
proof fn lemma_same_tags_same_topics(tags: Seq<Seq<char>>, t1: Seq<Topic>, t2: Seq<Topic>)
    requires
        topics_of(tags, t1),
        topics_of(tags, t2),
    ensures
        forall|i: int| 0 <= i < t1.len() ==> has_topic(t2, (#[trigger] t1[i]).name@, t1[i].doc_count),
{
    assert forall|i: int| 0 <= i < t1.len() implies has_topic(t2, (#[trigger] t1[i]).name@, t1[i].doc_count) by {
        assert(tags.contains(t1[i].name@));
        let k = choose|k: int| 0 <= k < tags.len() && tags[k] == t1[i].name@;
        assert(exists|j: int| 0 <= j < t2.len() && (#[trigger] t2[j]).name@ == #[trigger] tags[k]);
        let j = choose|j: int| 0 <= j < t2.len() && (#[trigger] t2[j]).name@ == #[trigger] tags[k];
        assert(t2[j].doc_count == count(tags, t2[j].name@));
        assert(t1[i].doc_count == count(tags, t1[i].name@));
    }
}

proof fn lemma_split_without_sep(x: Seq<char>, sep: char)
    requires
        !has_char(x, sep),
    ensures
        split_char(x, sep) == seq![x],
    decreases x.len(),
{
    if x.len() == 0 {
        assert(x =~= Seq::<char>::empty());
    } else {
        let d = x.drop_last();
        assert(!has_char(d, sep)) by {
            if has_char(d, sep) {
                let i = choose|i: int| 0 <= i < d.len() && d[i] == sep;
                assert(x[i] == sep);
            }
        }
        lemma_split_without_sep(d, sep);
        assert(x.last() != sep);
        assert(d.push(x.last()) =~= x);
        assert(seq![d].update(0, d.push(x.last())) =~= seq![x]);
    }
}

proof fn lemma_trim_bare_unchanged(x: Seq<char>)
    requires
        bare_word(x),
    ensures
        trim(x) == x,
{
    assert(trim_start(x) == x);
    assert(trim_end(x) == x);
}

proof fn lemma_count_push(s: Seq<Seq<char>>, x: Seq<char>, y: Seq<char>)
    ensures
        count(s.push(x), y) == count(s, y) + (if x == y { 1nat } else { 0nat }),
{
    assert(s.push(x).drop_last() =~= s);
}

/// Adding a document tagged with one bare tag `x` counts it once more: the
/// topic `x` is then counted one more time than before (once, if it is new),
/// and every other topic keeps its count.
pub proof fn law_tagged_doc_counts_once(docs: Seq<KnowledgeDoc>, d: KnowledgeDoc, x: Seq<char>, t1: Seq<Topic>, t2: Seq<Topic>)
    requires
        topics_of(all_tags(docs), t1),
        topics_of(all_tags(docs.push(d)), t2),
        d.tags@ == x,
        bare_word(x),
        !has_char(x, ','),
    ensures
        forall|i: int| 0 <= i < t1.len() && (#[trigger] t1[i]).name@ == x ==> has_topic(t2, x, (t1[i].doc_count + 1) as usize),
        (forall|i: int| 0 <= i < t1.len() ==> (#[trigger] t1[i]).name@ != x) ==> has_topic(t2, x, 1),
        forall|i: int| 0 <= i < t1.len() && (#[trigger] t1[i]).name@ != x ==> has_topic(t2, t1[i].name@, t1[i].doc_count),
{
    let tags = all_tags(docs);
    let all2 = docs.push(d);
    lemma_split_without_sep(x, ',');
    lemma_trim_bare_unchanged(x);
    assert(split_char(x, ',').map_values(|t: Seq<char>| trim(t)) =~= seq![x]);
    reveal_with_fuel(Seq::<_>::filter, 2);
    assert(seq![x].filter(|t: Seq<char>| t.len() > 0) =~= seq![x]) by {
        assert(seq![x].drop_last() =~= Seq::<Seq<char>>::empty());
    }
    assert(doc_tags(d) == seq![x]);
    assert(all2.drop_last() =~= docs);
    assert(all_tags(all2) =~= tags.push(x));
    let tags2 = tags.push(x);
    assert(tags2[tags.len() as int] == x);
    assert(exists|j: int| 0 <= j < t2.len() && (#[trigger] t2[j]).name@ == #[trigger] tags2[tags.len() as int]);
    let jx = choose|j: int| 0 <= j < t2.len() && (#[trigger] t2[j]).name@ == #[trigger] tags2[tags.len() as int];
    lemma_count_push(tags, x, x);
    assert(t2[jx].doc_count == count(tags2, x));
    assert forall|i: int| 0 <= i < t1.len() && (#[trigger] t1[i]).name@ == x implies has_topic(t2, x, (t1[i].doc_count + 1) as usize) by {
        assert(t1[i].doc_count == count(tags, x));
    }
    if forall|i: int| 0 <= i < t1.len() ==> (#[trigger] t1[i]).name@ != x {
        if tags.contains(x) {
            let k = choose|k: int| 0 <= k < tags.len() && tags[k] == x;
            let i = choose|i: int| 0 <= i < t1.len() && (#[trigger] t1[i]).name@ == #[trigger] tags[k];
            assert(false);
        }
        lemma_count_absent(tags, x);
        assert(has_topic(t2, x, 1));
    }
    assert forall|i: int| 0 <= i < t1.len() && (#[trigger] t1[i]).name@ != x implies has_topic(t2, t1[i].name@, t1[i].doc_count) by {
        let y = t1[i].name@;
        let k = choose|k: int| 0 <= k < tags.len() && tags[k] == y;
        assert(tags2[k] == y);
        let j = choose|j: int| 0 <= j < t2.len() && (#[trigger] t2[j]).name@ == #[trigger] tags2[k];
        lemma_count_push(tags, x, y);
        assert(t2[j].doc_count == count(tags2, y));
    }
}

proof fn lemma_all_tags_spacing(docs1: Seq<KnowledgeDoc>, docs2: Seq<KnowledgeDoc>)
    requires
        docs1.len() == docs2.len(),
        forall|i: int| 0 <= i < docs1.len() ==> same_tags_up_to_spacing(#[trigger] docs1[i], docs2[i]),
    ensures
        all_tags(docs1) == all_tags(docs2),
    decreases docs1.len(),
{
    if docs1.len() > 0 {
        let d1 = docs1.drop_last();
        let d2 = docs2.drop_last();
        assert forall|i: int| 0 <= i < d1.len() implies same_tags_up_to_spacing(#[trigger] d1[i], d2[i]) by {
            assert(d1[i] == docs1[i]);
            assert(d2[i] == docs2[i]);
        }
        lemma_all_tags_spacing(d1, d2);
        let a = docs1.last();
        let b = docs2.last();
        assert(same_tags_up_to_spacing(docs1[docs1.len() - 1], docs2[docs1.len() - 1]));
        assert(split_char(a.tags@, ',').map_values(|t: Seq<char>| trim(t)) =~= split_char(b.tags@, ',').map_values(|t: Seq<char>| trim(t)));
        assert(doc_tags(a) == doc_tags(b));
    }
}

/// The tags of one document.
fn tags_of_doc(d: &KnowledgeDoc) -> (r: Vec<Vec<char>>)
    ensures
        r@.len() == doc_tags(*d).len(),
        forall|k: int| 0 <= k < r@.len() ==> #[trigger] r@[k]@ == doc_tags(*d)[k],
{
    let tc = chars_of(d.tags.as_str());
    let pieces = split_chars(tc.as_slice(), ',');
    let ghost trimmed = split_char(d.tags@, ',').map_values(|t: Seq<char>| trim(t));
    let ghost keep = |t: Seq<char>| t.len() > 0;
    let mut out: Vec<Vec<char>> = Vec::new();
    let n = pieces.len();
    let mut i: usize = 0;
    while i < n
        invariant
            n == pieces@.len(),
            n == split_char(d.tags@, ',').len(),
            forall|k: int| 0 <= k < n ==> #[trigger] pieces@[k]@ == split_char(d.tags@, ',')[k],
            trimmed == split_char(d.tags@, ',').map_values(|t: Seq<char>| trim(t)),
            keep == (|t: Seq<char>| t.len() > 0),
            i <= n,
            out@.map_values(|v: Vec<char>| v@) == trimmed.take(i as int).filter(keep),
        decreases n - i,
    {
        let t = trim_chars(pieces[i].as_slice());
        proof {
            assert(trimmed.take(i + 1).drop_last() =~= trimmed.take(i as int));
            reveal_with_fuel(Seq::<_>::filter, 1);
        }
        if t.len() > 0 {
            let ghost before = out@;
            out.push(t);
            assert(out@.map_values(|v: Vec<char>| v@) =~= before.map_values(|v: Vec<char>| v@).push(trimmed[i as int]));
        }
        i = i + 1;
    }
    assert(trimmed.take(n as int) =~= trimmed);
    assert forall|k: int| 0 <= k < out@.len() implies #[trigger] out@[k]@ == doc_tags(*d)[k] by {
        assert(out@.map_values(|v: Vec<char>| v@)[k] == out@[k]@);
    }
    out
}

/// The topics formed by the tags of `docs`, in the order tags first appear.
pub fn topics_from_docs(docs: &Vec<KnowledgeDoc>) -> (r: Vec<Topic>)
    requires
        all_tags(docs@).len() < usize::MAX,
    ensures
        topics_of(all_tags(docs@), r@),
{
    let mut topics: Vec<Topic> = Vec::new();
    let n = docs.len();
    let mut i: usize = 0;
    while i < n
        invariant
            n == docs@.len(),
            i <= n,
            all_tags(docs@).len() < usize::MAX,
            topics_of(all_tags(docs@.take(i as int)), topics@),
        decreases n - i,
    {
        let tags = tags_of_doc(&docs[i]);
        let ghost base = all_tags(docs@.take(i as int));
        proof {
            assert(docs@.take(i + 1).drop_last() =~= docs@.take(i as int));
            assert(all_tags(docs@.take(i + 1)) == base + doc_tags(docs@[i as int]));
            lemma_all_tags_prefix(docs@, i as int + 1);
        }
        let tn = tags.len();
        let mut j: usize = 0;
        while j < tn
            invariant
                tn == tags@.len(),
                tn == doc_tags(docs@[i as int]).len(),
                forall|k: int| 0 <= k < tn ==> #[trigger] tags@[k]@ == doc_tags(docs@[i as int])[k],
                j <= tn,
                base.len() + tn < usize::MAX,
                topics_of(base + doc_tags(docs@[i as int]).take(j as int), topics@),
            decreases tn - j,
        {
            let ghost cur = base + doc_tags(docs@[i as int]).take(j as int);
            let ghost next = base + doc_tags(docs@[i as int]).take(j + 1);
            assert(next =~= cur.push(tags@[j as int]@));
            assert(next.drop_last() =~= cur);
            let tag = &tags[j];
            // find the topic of this tag
            let tcount = topics.len();
            let mut q: usize = 0;
            while q < tcount && !crate::text::chars_eq(chars_of(topics[q].name.as_str()).as_slice(), tag.as_slice())
                invariant
                    tcount == topics@.len(),
                    q <= tcount,
                    forall|k: int| 0 <= k < q ==> (#[trigger] topics@[k]).name@ != tag@,
                decreases tcount - q,
            {
                q = q + 1;
            }
            proof {
                lemma_count_le(cur, tag@);
            }
            if q < tcount {
                let old_t = &topics[q];
                let updated = Topic {
                    name: old_t.name.clone(),
                    description: old_t.description.clone(),
                    doc_count: old_t.doc_count + 1,
                };
                let ghost before = topics@;
                topics.set(q, updated);
                proof {
                    assert(before[q as int].name@ == tag@);
                    assert forall|a: int| 0 <= a < topics@.len() implies (#[trigger] topics@[a]).doc_count == count(next, topics@[a].name@) by {
                        assert(topics@[a].name == before[a].name);
                    }
                    assert forall|a: int| 0 <= a < topics@.len() implies next.contains((#[trigger] topics@[a]).name@) by {
                        assert(topics@[a].name == before[a].name);
                        let w = choose|w: int| 0 <= w < cur.len() && cur[w] == before[a].name@;
                        assert(next[w] == cur[w]);
                    }
                    assert forall|k: int| 0 <= k < next.len() implies exists|a: int| 0 <= a < topics@.len() && (#[trigger] topics@[a]).name@ == #[trigger] next[k] by {
                        if k < cur.len() {
                            let a = choose|a: int| 0 <= a < before.len() && (#[trigger] before[a]).name@ == #[trigger] cur[k];
                            assert(topics@[a].name == before[a].name);
                        } else {
                            assert(topics@[q as int].name@ == next[k]);
                        }
                    }
                    assert forall|a: int, b: int| 0 <= a < topics@.len() && 0 <= b < topics@.len() && a != b implies (#[trigger] topics@[a]).name@ != (#[trigger] topics@[b]).name@ by {
                        assert(topics@[a].name == before[a].name);
                        assert(topics@[b].name == before[b].name);
                    }
                }
            } else {
                let mut desc: Vec<char> = Vec::new();
                push_str(&mut desc, "Docs tagged '");
                append_chars(&mut desc, tag.as_slice());
                push_str(&mut desc, "'");
                assert(desc@ =~= topic_description(tag@));
                let ghost before = topics@;
                proof {
                    if cur.contains(tag@) {
                        let w = choose|w: int| 0 <= w < cur.len() && cur[w] == tag@;
                        let a = choose|a: int| 0 <= a < before.len() && (#[trigger] before[a]).name@ == #[trigger] cur[w];
                        assert(before[a].name@ == tag@);
                    }
                    lemma_count_absent(cur, tag@);
                }
                topics.push(Topic {
                    name: string_from_chars(tag.as_slice()),
                    description: string_from_chars(desc.as_slice()),
                    doc_count: 1,
                });
                proof {
                    assert forall|a: int| 0 <= a < topics@.len() implies (#[trigger] topics@[a]).doc_count == count(next, topics@[a].name@) by {
                        if a < before.len() {
                            assert(topics@[a] == before[a]);
                        }
                    }
                    assert forall|a: int| 0 <= a < topics@.len() implies next.contains((#[trigger] topics@[a]).name@) by {
                        if a < before.len() {
                            assert(topics@[a] == before[a]);
                            let w = choose|w: int| 0 <= w < cur.len() && cur[w] == before[a].name@;
                            assert(next[w] == cur[w]);
                        } else {
                            assert(next[next.len() - 1] == tag@);
                        }
                    }
                    assert forall|k: int| 0 <= k < next.len() implies exists|a: int| 0 <= a < topics@.len() && (#[trigger] topics@[a]).name@ == #[trigger] next[k] by {
                        if k < cur.len() {
                            let a = choose|a: int| 0 <= a < before.len() && (#[trigger] before[a]).name@ == #[trigger] cur[k];
                            assert(topics@[a] == before[a]);
                        } else {
                            assert(topics@[before.len() as int].name@ == next[k]);
                        }
                    }
                    assert forall|a: int, b: int| 0 <= a < topics@.len() && 0 <= b < topics@.len() && a != b implies (#[trigger] topics@[a]).name@ != (#[trigger] topics@[b]).name@ by {
                        if a < before.len() && b < before.len() {
                            assert(topics@[a] == before[a]);
                            assert(topics@[b] == before[b]);
                        } else if a < before.len() {
                            assert(topics@[a] == before[a]);
                        } else if b < before.len() {
                            assert(topics@[b] == before[b]);
                        }
                    }
                }
            }
            j = j + 1;
        }
        assert(doc_tags(docs@[i as int]).take(tn as int) =~= doc_tags(docs@[i as int]));
        i = i + 1;
    }
    assert(docs@.take(n as int) =~= docs@);
    topics
}

/// The tags of a prefix are no more than the tags of the whole.
proof fn lemma_all_tags_prefix(docs: Seq<KnowledgeDoc>, k: int)
    requires
        0 <= k <= docs.len(),
    ensures
        all_tags(docs.take(k)).len() <= all_tags(docs).len(),
    decreases docs.len() - k,
{
    if k < docs.len() {
        lemma_all_tags_prefix(docs, k + 1);
        assert(docs.take(k + 1).drop_last() =~= docs.take(k));
    } else {
        assert(docs.take(k) =~= docs);
    }
}

/// The topics of the knowledge base: the tags of the 1000 most recently
/// updated documents.
pub fn list_topics(docs: &Vec<KnowledgeDoc>) -> (r: Vec<Topic>)
    requires
        forall|s: Seq<KnowledgeDoc>| #[trigger] search_result(docs@, Seq::<char>::empty(), 1000, s) ==> all_tags(s).len() < usize::MAX,
    ensures
        exists|s: Seq<KnowledgeDoc>| #[trigger] search_result(docs@, Seq::<char>::empty(), 1000, s) && topics_of(all_tags(s), r@),
{
    let listed = search(docs, "", 1000);
    proof {
        reveal_strlit("");
    }
    assert(""@ =~= Seq::<char>::empty());
    let r = topics_from_docs(&listed);
    assert(search_result(docs@, Seq::<char>::empty(), 1000, listed@) && topics_of(all_tags(listed@), r@));
    r
}


// ───────────────────────── prompt context ─────────────────────────

/// The content's first 300 bytes end between two characters (or the content
/// is no longer than that), so it can be cut there.
pub open spec fn preview_cut_ok(c: Seq<char>) -> bool {
    utf8_len(c) > 300 ==> is_boundary(c, 300)
}

/// The preview of a document's content: the content, or its first 300 bytes
/// and `...` when it is longer.
pub open spec fn preview(c: Seq<char>) -> Seq<char> {
    if utf8_len(c) > 300 {
        c.take(choose|k: int| 0 <= k <= c.len() && utf8_len(#[trigger] c.take(k)) == 300) + "..."@
    } else {
        c
    }
}

/// The section of the `i`-th (from zero) document in the context.
pub open spec fn doc_section(i: int, d: KnowledgeDoc) -> Seq<char> {
    "--- Doc "@ + decimal((i + 1) as nat) + ": "@ + d.title@ + " (tags: "@ + d.tags@ + ") ---\n"@
        + preview(d.content@) + "\n\n"@
}

/// The sections of the first `n` documents.
pub open spec fn sections(r: Seq<KnowledgeDoc>, n: int) -> Seq<char>
    decreases n,
{
    if n <= 0 {
        Seq::<char>::empty()
    } else {
        sections(r, n - 1) + doc_section(n - 1, r[n - 1])
    }
}

/// The context text for found documents: empty when there are none.
pub open spec fn context_text(r: Seq<KnowledgeDoc>) -> Seq<char> {
    if r.len() == 0 {
        Seq::<char>::empty()
    } else {
        "\n\n[Shared Knowledge Base \u{2014} relevant documents]\n"@ + sections(r, r.len() as int)
            + "[/Shared Knowledge Base]"@
    }
}

/// The preview of one content.
fn preview_of(c: &str) -> (r: Vec<char>)
    requires
        preview_cut_ok(c@),
    ensures
        r@ == preview(c@),
{
    let cc = chars_of(c);
    if utf8_len_exceeds(cc.as_slice(), 300) {
        let k = match char_count_at_byte(cc.as_slice(), 300) {
            Some(k) => k,
            None => {
                proof {
                    let w = choose|w: int| 0 <= w <= c@.len() && utf8_len(#[trigger] c@.take(w)) == 300;
                }
                0
            },
        };
        proof {
            let w = choose|w: int| 0 <= w <= c@.len() && utf8_len(#[trigger] c@.take(w)) == 300;
            if w < k {
                lemma_utf8_len_take_mono(c@, w, k as int);
            } else if w > k {
                lemma_utf8_len_take_mono(c@, k as int, w);
            }
        }
        let mut out = take_chars(cc.as_slice(), k);
        push_str(&mut out, "...");
        out
    } else {
        cc
    }
}

/// The context text for the found documents, each content cut for its
/// preview.
pub fn context_for(found: &Vec<KnowledgeDoc>) -> (r: String)
    requires
        forall|k: int| 0 <= k < found@.len() ==> preview_cut_ok(#[trigger] found@[k].content@),
    ensures
        r@ == context_text(found@),
{
    if found.len() == 0 {
        assert(context_text(found@) =~= Seq::<char>::empty());
        return String::new();
    }
    let mut ctx: Vec<char> = Vec::new();
    push_str(&mut ctx, "\n\n[Shared Knowledge Base \u{2014} relevant documents]\n");
    let ghost head = ctx@;
    let n = found.len();
    let mut i: usize = 0;
    while i < n
        invariant
            n == found@.len(),
            i <= n,
            forall|k: int| 0 <= k < n ==> preview_cut_ok(#[trigger] found@[k].content@),
            ctx@ == head + sections(found@, i as int),
        decreases n - i,
    {
        let d = &found[i];
        let mut sec: Vec<char> = Vec::new();
        push_str(&mut sec, "--- Doc ");
        push_decimal((i + 1) as u64, &mut sec);
        push_str(&mut sec, ": ");
        push_str(&mut sec, d.title.as_str());
        push_str(&mut sec, " (tags: ");
        push_str(&mut sec, d.tags.as_str());
        push_str(&mut sec, ") ---\n");
        assert(preview_cut_ok(found@[i as int].content@));
        let pv = preview_of(d.content.as_str());
        append_chars(&mut sec, pv.as_slice());
        push_str(&mut sec, "\n\n");
        assert(sec@ =~= doc_section(i as int, found@[i as int]));
        append_chars(&mut ctx, sec.as_slice());
        assert(ctx@ =~= head + sections(found@, i + 1));
        i = i + 1;
    }
    push_str(&mut ctx, "[/Shared Knowledge Base]");
    assert(ctx@ =~= context_text(found@));
    string_from_chars(ctx.as_slice())
}

/// Context about `query` for a prompt: the matching documents (at most
/// `max_docs`, most recently updated first) with a preview of each.  A
/// preview cut that would fall inside a character is left out by `requires`.
pub fn build_knowledge_context(docs: &Vec<KnowledgeDoc>, query: &str, max_docs: usize) -> (r: String)
    requires
        forall|s: Seq<KnowledgeDoc>| #[trigger] search_result(docs@, query@, max_docs, s) ==> forall|k: int| 0 <= k < s.len() ==> preview_cut_ok(#[trigger] s[k].content@),
    ensures
        exists|s: Seq<KnowledgeDoc>| #[trigger] search_result(docs@, query@, max_docs, s) && r@ == context_text(s),
{
    let found = search(docs, query, max_docs);
    assert(search_result(docs@, query@, max_docs, found@));
    context_for(&found)
}

/// Whether the preview of a content can be cut at its 300th byte.
fn preview_cut_ok_exec(c: &str) -> (r: bool)
    ensures
        r == preview_cut_ok(c@),
{
    let cc = chars_of(c);
    if utf8_len_exceeds(cc.as_slice(), 300) {
        match char_count_at_byte(cc.as_slice(), 300) {
            Some(_) => true,
            None => false,
        }
    } else {
        true
    }
}

/// Every found document's preview can be cut.
pub open spec fn previews_cut_ok(s: Seq<KnowledgeDoc>) -> bool {
    forall|k: int| 0 <= k < s.len() ==> preview_cut_ok(#[trigger] s[k].content@)
}

/// The knowledge context of `build_knowledge_context`, or nothing when a
/// found document's preview would be cut inside a character.
pub fn knowledge_context_checked(docs: &Vec<KnowledgeDoc>, query: &str, max_docs: usize) -> (r: Option<String>)
    ensures
        exists|s: Seq<KnowledgeDoc>| #[trigger] search_result(docs@, query@, max_docs, s) && match r {
            Some(t) => previews_cut_ok(s) && t@ == context_text(s),
            None => !previews_cut_ok(s),
        },
{
    let found = search(docs, query, max_docs);
    assert(search_result(docs@, query@, max_docs, found@));
    let n = found.len();
    let mut i: usize = 0;
    while i < n
        invariant
            n == found@.len(),
            i <= n,
            search_result(docs@, query@, max_docs, found@),
            forall|k: int| 0 <= k < i ==> preview_cut_ok(#[trigger] found@[k].content@),
        decreases n - i,
    {
        if !preview_cut_ok_exec(found[i].content.as_str()) {
            assert(!previews_cut_ok(found@)) by {
                assert(!preview_cut_ok(found@[i as int].content@));
            }
            return None;
        }
        i = i + 1;
    }
    Some(context_for(&found))
}

// ───────────────────────── saving ─────────────────────────

/// `char::is_alphanumeric`: the Unicode `Alphabetic` or `Numeric` property.
pub uninterp spec fn spec_is_alphanumeric(c: char) -> bool;

/// Whether `c` is alphabetic or numeric in Unicode (`char::is_alphanumeric`).
/// ASCII letters and digits are alphanumeric; other ASCII characters are not.
#[verifier::external_body]
pub(crate) fn is_alphanumeric(c: char) -> (r: bool)
    ensures
        r == spec_is_alphanumeric(c),
        (c as u32) < 128 ==> (r <==> (48 <= (c as u32) <= 57 || 65 <= (c as u32) <= 90 || 97 <= (c as u32) <= 122)),
{
    c.is_alphanumeric()
}

/// The id stem of a title: trimmed, lowercased, spaces turned into `_`, and
/// every character that is neither alphanumeric nor `_` removed.
pub open spec fn title_stem(title: Seq<char>) -> Seq<char> {
    spec_lowercase(trim(title)).map_values(|c: char| if c == ' ' { '_' } else { c }).filter(
        |c: char| spec_is_alphanumeric(c) || c == '_',
    )
}

/// The time stamp text of a clock reading (empty before the epoch).
pub open spec fn stamp(now: Option<u64>) -> Seq<char> {
    match now {
        Some(n) => decimal(n as nat),
        None => Seq::<char>::empty(),
    }
}

/// A new document stamped `now`: its id is the title stem, `_` and the stamp;
/// it was created and updated at the stamp.
pub fn new_doc(title: &str, content: &str, tags: &str, source: &str, now: Option<u64>) -> (d: KnowledgeDoc)
    ensures
        d.id@ == title_stem(title@) + "_"@ + stamp(now),
        d.title@ == title@,
        d.content@ == content@,
        d.tags@ == tags@,
        d.source@ == source@,
        d.created_at@ == stamp(now),
        d.updated_at@ == stamp(now),
{
    let mut st: Vec<char> = Vec::new();
    match now {
        Some(n) => push_decimal(n, &mut st),
        None => {},
    }
    assert(st@ =~= stamp(now));
    let tc = chars_of(title);
    let tt = trim_chars(tc.as_slice());
    let tl = lowercase_chars(tt.as_slice());
    let ghost mapped = spec_lowercase(trim(title@)).map_values(|c: char| if c == ' ' { '_' } else { c });
    let ghost keep = |c: char| spec_is_alphanumeric(c) || c == '_';
    let mut id: Vec<char> = Vec::new();
    let n = tl.len();
    let mut i: usize = 0;
    while i < n
        invariant
            n == tl@.len(),
            tl@ == spec_lowercase(trim(title@)),
            mapped == spec_lowercase(trim(title@)).map_values(|c: char| if c == ' ' { '_' } else { c }),
            keep == (|c: char| spec_is_alphanumeric(c) || c == '_'),
            i <= n,
            id@ == mapped.take(i as int).filter(keep),
        decreases n - i,
    {
        let c = if tl[i] == ' ' { '_' } else { tl[i] };
        proof {
            assert(mapped.take(i + 1).drop_last() =~= mapped.take(i as int));
            reveal_with_fuel(Seq::<_>::filter, 1);
        }
        if is_alphanumeric(c) || c == '_' {
            id.push(c);
        }
        i = i + 1;
    }
    assert(mapped.take(n as int) =~= mapped);
    push_str(&mut id, "_");
    append_chars(&mut id, st.as_slice());
    KnowledgeDoc {
        id: string_from_chars(id.as_slice()),
        title: crate::text::owned(title),
        content: crate::text::owned(content),
        tags: crate::text::owned(tags),
        source: crate::text::owned(source),
        created_at: string_from_chars(st.as_slice()),
        updated_at: string_from_chars(st.as_slice()),
    }
}

/// The file a document is stored in: its id with `.json`.
pub fn doc_file_name(id: &str) -> (r: String)
    ensures
        r@ == id@ + ".json"@,
{
    let mut m: Vec<char> = Vec::new();
    push_str(&mut m, id);
    push_str(&mut m, ".json");
    string_from_chars(m.as_slice())
}

} // verus!

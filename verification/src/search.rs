//! Web search results: query encoding, the reading of DuckDuckGo answers,
//! Google result pages and browser page text, and the ids of browser
//! protocol commands.
use vstd::prelude::*;
use crate::json::{json_array_item, json_array_len, json_str_field, spec_json_array_item, spec_json_array_len, spec_json_str_field};
use crate::text::{
    append_chars, chars_of, contains_chars, has_char, has_char_exec, is_boundary, join, join_chars,
    lines, lines_chars, owned, push_str, seq_contains, split_char, split_chars, string_from_chars,
    take_chars, trim, trim_chars, utf8_len, utf8_len_exceeds, char_count_at_byte, cut_at_byte,
    lemma_utf8_len_take_mono,
};

verus! {

/// The uppercase hexadecimal digit for `d` (0 to 15).
pub open spec fn hex_digit(d: int) -> char {
    if d < 10 {
        crate::text::digit_char(d)
    } else if d == 10 { 'A' }
    else if d == 11 { 'B' }
    else if d == 12 { 'C' }
    else if d == 13 { 'D' }
    else if d == 14 { 'E' }
    else { 'F' }
}

/// A character left as it is in a query: ASCII letters and digits, `-`, `_`,
/// `.` and `~`.
pub open spec fn unreserved(c: char) -> bool {
    let u = c as u32;
    (48 <= u <= 57) || (65 <= u <= 90) || (97 <= u <= 122) || c == '-' || c == '_' || c == '.' || c == '~'
}

/// The encoding of one character: itself when unreserved, `+` for a space,
/// otherwise `%` and two hexadecimal digits of its low byte.
pub open spec fn encode_char(c: char) -> Seq<char> {
    if unreserved(c) {
        seq![c]
    } else if c == ' ' {
        seq!['+']
    } else {
        let b = (c as u32) % 256;
        seq!['%', hex_digit((b / 16) as int), hex_digit((b % 16) as int)]
    }
}

/// The encoding of a query.
pub open spec fn url_encoded(s: Seq<char>) -> Seq<char>
    decreases s.len(),
{
    if s.len() == 0 {
        Seq::<char>::empty()
    } else {
        url_encoded(s.drop_last()) + encode_char(s.last())
    }
}

fn hex_digit_exec(d: u32) -> (c: char)
    requires
        d < 16,
    ensures
        c == hex_digit(d as int),
{
    if d == 0 { '0' } else if d == 1 { '1' } else if d == 2 { '2' } else if d == 3 { '3' }
    else if d == 4 { '4' } else if d == 5 { '5' } else if d == 6 { '6' } else if d == 7 { '7' }
    else if d == 8 { '8' } else if d == 9 { '9' } else if d == 10 { 'A' } else if d == 11 { 'B' }
    else if d == 12 { 'C' } else if d == 13 { 'D' } else if d == 14 { 'E' } else { 'F' }
}

/// Encodes a search query for a URL.
pub fn urlencode(s: &str) -> (r: String)
    ensures
        r@ == url_encoded(s@),
{
    let cs = chars_of(s);
    let mut out: Vec<char> = Vec::new();
    let n = cs.len();
    let mut i: usize = 0;
    while i < n
        invariant
            n == cs@.len(),
            cs@ == s@,
            i <= n,
            out@ == url_encoded(s@.take(i as int)),
        decreases n - i,
    {
        let c = cs[i];
        let u = c as u32;
        assert(s@.take(i + 1).drop_last() =~= s@.take(i as int));
        let ghost before = out@;
        if (48 <= u && u <= 57) || (65 <= u && u <= 90) || (97 <= u && u <= 122) || c == '-' || c == '_' || c == '.' || c == '~' {
            out.push(c);
        } else if c == ' ' {
            out.push('+');
        } else {
            let b = u % 256;
            out.push('%');
            out.push(hex_digit_exec(b / 16));
            out.push(hex_digit_exec(b % 16));
        }
        assert(out@ =~= before + encode_char(c));
        i = i + 1;
    }
    assert(s@.take(n as int) =~= s@);
    string_from_chars(out.as_slice())
}

/// The Google search URL for a query.
pub fn google_search_url(query: &str) -> (r: String)
    ensures
        r@ == "https://www.google.com/search?q="@ + url_encoded(query@),
{
    let mut m: Vec<char> = Vec::new();
    push_str(&mut m, "https://www.google.com/search?q=");
    let e = urlencode(query);
    push_str(&mut m, e.as_str());
    string_from_chars(m.as_slice())
}

// ───────────────────────── DuckDuckGo ─────────────────────────

/// The bullet lines of a DuckDuckGo answer: the abstract (when present and not
/// empty), then the texts of the first five related topics that have one.
pub open spec fn ddg_lines(abstract_text: Option<Seq<char>>, topics: Seq<Option<Seq<char>>>) -> Seq<Seq<char>> {
    let head = match abstract_text {
        Some(t) => if t.len() > 0 { seq!["- "@ + t] } else { Seq::empty() },
        None => Seq::empty(),
    };
    head + topics.take(if topics.len() < 5 { topics.len() as int } else { 5 }).filter(|t: Option<Seq<char>>| t is Some).map_values(|t: Option<Seq<char>>| "- "@ + t->0)
}

/// The views of optional strings.
pub open spec fn opts_view(v: Seq<Option<String>>) -> Seq<Option<Seq<char>>> {
    v.map_values(|o: Option<String>| match o { Some(s) => Some(s@), None => None })
}

/// The text of a DuckDuckGo answer: its bullet lines joined by newlines.
pub fn ddg_summary(abstract_text: Option<String>, topics: &Vec<Option<String>>) -> (r: String)
    ensures
        r@ == join(ddg_lines(crate::tool_layer::opt_view(abstract_text), opts_view(topics@)), "\n"@),
{
    let ghost av = crate::tool_layer::opt_view(abstract_text);
    let ghost tv = opts_view(topics@);
    let mut out: Vec<Vec<char>> = Vec::new();
    match &abstract_text {
        Some(t) => {
            if !t.as_str().is_empty() {
                let mut l: Vec<char> = Vec::new();
                push_str(&mut l, "- ");
                push_str(&mut l, t.as_str());
                out.push(l);
            }
        },
        None => {},
    }
    let ghost head = out@.map_values(|v: Vec<char>| v@);
    let lim = if topics.len() < 5 { topics.len() } else { 5 };
    let ghost pick = |t: Option<Seq<char>>| t is Some;
    let ghost fmt = |t: Option<Seq<char>>| "- "@ + t->0;
    let mut i: usize = 0;
    while i < lim
        invariant
            lim <= topics@.len(),
            tv == opts_view(topics@),
            pick == (|t: Option<Seq<char>>| t is Some),
            fmt == (|t: Option<Seq<char>>| "- "@ + t->0),
            i <= lim,
            out@.map_values(|v: Vec<char>| v@) == head + tv.take(i as int).filter(pick).map_values(fmt),
        decreases lim - i,
    {
        proof {
            assert(tv.take(i + 1).drop_last() =~= tv.take(i as int));
            reveal_with_fuel(Seq::<_>::filter, 1);
        }
        match &topics[i] {
            Some(t) => {
                let mut l: Vec<char> = Vec::new();
                push_str(&mut l, "- ");
                push_str(&mut l, t.as_str());
                let ghost before = out@;
                out.push(l);
                proof {
                    assert(tv[i as int] == Some(t@));
                    assert(l@ == fmt(tv[i as int]));
                    assert(tv.take(i + 1).filter(pick) == tv.take(i as int).filter(pick).push(tv[i as int]));
                    assert(out@.map_values(|v: Vec<char>| v@) =~= before.map_values(|v: Vec<char>| v@).push(l@));
                    assert(tv.take(i + 1).filter(pick).map_values(fmt) =~= tv.take(i as int).filter(pick).map_values(fmt).push(fmt(tv[i as int])));
                    assert(out@.map_values(|v: Vec<char>| v@) =~= head + tv.take(i + 1).filter(pick).map_values(fmt));
                }
            },
            None => {
                assert(tv.take(i + 1).filter(pick) == tv.take(i as int).filter(pick));
            },
        }
        i = i + 1;
    }
    proof {
        assert(head =~= match av {
            Some(t) => if t.len() > 0 { seq!["- "@ + t] } else { Seq::<Seq<char>>::empty() },
            None => Seq::<Seq<char>>::empty(),
        });
        assert(out@.map_values(|v: Vec<char>| v@) =~= ddg_lines(av, tv));
    }
    let sep = chars_of("\n");
    let joined = join_chars(&out, sep.as_slice());
    string_from_chars(joined.as_slice())
}


/// The text of the `i`-th related topic of a DuckDuckGo answer, if it has one.
pub open spec fn ddg_topic(data: serde_json::Value, i: int) -> Option<Seq<char>> {
    spec_json_str_field(spec_json_array_item(data, "RelatedTopics"@, i as usize), "Text"@)
}

/// The texts of the first (at most five) related topics of a DuckDuckGo answer.
pub open spec fn ddg_topics(data: serde_json::Value) -> Seq<Option<Seq<char>>> {
    match spec_json_array_len(data, "RelatedTopics"@) {
        Some(n) => Seq::new(if n < 5 { n as nat } else { 5 }, |i: int| ddg_topic(data, i)),
        None => Seq::empty(),
    }
}

/// The summary of a DuckDuckGo answer: its abstract, then the texts of its
/// first five related topics, each as a bullet line.
pub fn ddg_answer(data: &serde_json::Value) -> (r: String)
    ensures
        r@ == join(ddg_lines(spec_json_str_field(*data, "AbstractText"@), ddg_topics(*data)), "\n"@),
{
    let abstract_text = json_str_field(data, "AbstractText");
    let mut topics: Vec<Option<String>> = Vec::new();
    match json_array_len(data, "RelatedTopics") {
        Some(n) => {
            let lim = if n < 5 { n } else { 5 };
            let mut i: usize = 0;
            while i < lim
                invariant
                    lim <= 5,
                    i <= lim,
                    lim == (if n < 5 { n } else { 5 }),
                    topics@.len() == i,
                    forall|k: int| 0 <= k < i ==> opts_view(topics@)[k] == ddg_topic(*data, k),
                decreases lim - i,
            {
                let item = json_array_item(data, "RelatedTopics", i);
                let t = json_str_field(&item, "Text");
                topics.push(t);
                i = i + 1;
            }
            assert(opts_view(topics@) =~= ddg_topics(*data));
        },
        None => {
            assert(opts_view(topics@) =~= ddg_topics(*data));
        },
    }
    ddg_summary(abstract_text, &topics)
}

/// What a search backend gives when it answered with some text.
pub fn backend_answer(r: Result<String, String>) -> (a: Option<String>)
    ensures
        match r {
            Ok(t) => if t@.len() > 0 { a == Some(t) } else { a is None },
            Err(_) => a is None,
        },
{
    match r {
        Ok(t) => if t.as_str().is_empty() {
            None
        } else {
            Some(t)
        },
        Err(_) => None,
    }
}

/// A web search backend.
#[derive(Debug, Clone, Copy, PartialEq, Eq, Structural)]
pub enum SearchBackend {
    DuckDuckGo,
    Google,
}

/// The backends a web search tries, in order.
pub open spec fn backend_order() -> Seq<SearchBackend> {
    seq![SearchBackend::DuckDuckGo, SearchBackend::Google]
}

/// A web search in progress: the backends are tried in order until one
/// answers with some text.
pub struct SearchFallback {
    tried: usize,
    answer: Option<String>,
}

impl SearchFallback {
    /// How many backends were tried.
    pub closed spec fn tried(&self) -> nat {
        self.tried as nat
    }

    /// The answer found, if any.
    pub closed spec fn answer(&self) -> Option<Seq<char>> {
        crate::tool_layer::opt_view(self.answer)
    }

    /// Well-formedness: no more backends tried than there are.
    pub closed spec fn wf(&self) -> bool {
        self.tried <= 2
    }

    /// A search that has tried nothing yet.
    pub fn new() -> (r: Self)
        ensures
            r.wf(),
            r.tried() == 0,
            r.answer() is None,
    {
        SearchFallback { tried: 0, answer: None }
    }

    /// The backend to try next: the next one in order while none has
    /// answered.
    pub fn next_backend(&self) -> (r: Option<SearchBackend>)
        requires
            self.wf(),
        ensures
            (self.answer() is None && self.tried() < backend_order().len()) ==> r == Some(backend_order()[self.tried() as int]),
            !(self.answer() is None && self.tried() < backend_order().len()) ==> r is None,
    {
        if self.answer.is_some() || self.tried >= 2 {
            None
        } else if self.tried == 0 {
            Some(SearchBackend::DuckDuckGo)
        } else {
            Some(SearchBackend::Google)
        }
    }

    /// Records what the backend tried last gave: its text when it answered
    /// with some.
    pub fn record(&mut self, r: Result<String, String>)
        requires
            old(self).wf(),
            old(self).tried() < backend_order().len(),
            old(self).answer() is None,
        ensures
            final(self).wf(),
            final(self).tried() == old(self).tried() + 1,
            final(self).answer() == match r {
                Ok(t) => if t@.len() > 0 { Some(t@) } else { None },
                Err(_) => None,
            },
    {
        self.tried = self.tried + 1;
        self.answer = backend_answer(r);
    }

    /// The outcome: the answer found, or the refusal when no backend answered.
    pub fn outcome(self) -> (r: Result<String, String>)
        ensures
            match self.answer() {
                Some(a) => r matches Ok(t) && t@ == a,
                None => r matches Err(e) && e@ == "All search backends failed"@,
            },
    {
        match self.answer {
            Some(a) => Ok(a),
            None => Err(owned("All search backends failed")),
        }
    }
}

/// The two tiers of a web search: a Google search in the local browser,
/// then the search over DuckDuckGo and Google (`SearchFallback`).
#[derive(Debug, Clone, Copy, PartialEq, Eq, Structural)]
pub enum SearchTier {
    Browser,
    Backends,
}

impl SearchTier {
    /// The label an answer of this tier is framed with.
    pub open spec fn label_spec(self) -> Seq<char> {
        match self {
            SearchTier::Browser => "Browser"@,
            SearchTier::Backends => "Search"@,
        }
    }

    /// The label an answer of this tier is framed with: `Browser` or `Search`.
    pub fn label(&self) -> (r: String)
        ensures
            r@ == self.label_spec(),
    {
        match self {
            SearchTier::Browser => owned("Browser"),
            SearchTier::Backends => owned("Search"),
        }
    }
}

/// The view of a search outcome.
pub open spec fn outcome_view(r: Option<Result<String, String>>) -> Option<Result<Seq<char>, Seq<char>>> {
    match r {
        Some(Ok(t)) => Some(Ok(t@)),
        Some(Err(e)) => Some(Err(e@)),
        None => None,
    }
}

/// A web search across its tiers: the browser first; the other backends only
/// when the browser search failed.
pub struct WebSearch {
    browser: Option<Result<String, String>>,
    backends: Option<Result<String, String>>,
}

impl WebSearch {
    /// What the browser search gave, once tried.
    pub closed spec fn browser(&self) -> Option<Result<Seq<char>, Seq<char>>> {
        outcome_view(self.browser)
    }

    /// What the search over the other backends gave, once tried.
    pub closed spec fn backends(&self) -> Option<Result<Seq<char>, Seq<char>>> {
        outcome_view(self.backends)
    }

    /// The tier to try next, if any: the browser first, then the other
    /// backends when the browser search failed.
    pub open spec fn next_spec(&self) -> Option<SearchTier> {
        match self.browser() {
            None => Some(SearchTier::Browser),
            Some(Err(_)) => if self.backends() is None { Some(SearchTier::Backends) } else { None },
            Some(Ok(_)) => None,
        }
    }

    /// A search that has tried nothing yet.
    pub fn new() -> (r: Self)
        ensures
            r.browser() is None,
            r.backends() is None,
    {
        WebSearch { browser: None, backends: None }
    }

    /// The tier to try next.
    pub fn next_tier(&self) -> (r: Option<SearchTier>)
        ensures
            r == self.next_spec(),
    {
        match &self.browser {
            None => Some(SearchTier::Browser),
            Some(Err(_)) => if self.backends.is_none() { Some(SearchTier::Backends) } else { None },
            Some(Ok(_)) => None,
        }
    }

    /// Records what the tier tried last gave.
    pub fn record(&mut self, r: Result<String, String>)
        requires
            old(self).next_spec() is Some,
        ensures
            old(self).next_spec() == Some(SearchTier::Browser) ==> final(self).browser() == outcome_view(Some(r))
                && final(self).backends() == old(self).backends(),
            old(self).next_spec() == Some(SearchTier::Backends) ==> final(self).backends() == outcome_view(Some(r))
                && final(self).browser() == old(self).browser(),
    {
        if self.browser.is_none() {
            self.browser = Some(r);
        } else {
            self.backends = Some(r);
        }
    }

    /// The outcome once no tier is left: the browser's text when the browser
    /// search succeeded, else what the other backends gave; each answer with
    /// the tier that gave it.
    pub fn outcome(self) -> (r: Result<(SearchTier, String), String>)
        requires
            self.next_spec() is None,
        ensures
            match self.browser() {
                Some(Ok(t)) => r matches Ok((tier, a)) && tier == SearchTier::Browser && a@ == t,
                _ => match self.backends() {
                    Some(Ok(t)) => r matches Ok((tier, a)) && tier == SearchTier::Backends && a@ == t,
                    Some(Err(e)) => r matches Err(x) && x@ == e,
                    None => r is Err,
                },
            },
    {
        match self.browser {
            Some(Ok(t)) => Ok((SearchTier::Browser, t)),
            _ => match self.backends {
                Some(Ok(t)) => Ok((SearchTier::Backends, t)),
                Some(Err(e)) => Err(e),
                None => Err(String::new()),
            },
        }
    }
}

// ───────────────────────── Google result pages ─────────────────────────

/// The text of a result heading line: the pieces between `<` that hold no
/// `>`, joined by spaces and trimmed.
pub open spec fn h3_text(line: Seq<char>) -> Seq<char> {
    trim(join(split_char(line, '<').filter(|p: Seq<char>| !has_char(p, '>')), " "@))
}

/// The result lines of a page: each line holding `<h3` whose heading text is
/// longer than 15 bytes gives `- <text>`.
pub open spec fn google_items(ls: Seq<Seq<char>>) -> Seq<Seq<char>>
    decreases ls.len(),
{
    if ls.len() == 0 {
        Seq::<Seq<char>>::empty()
    } else {
        let l = ls.last();
        google_items(ls.drop_last()) + if seq_contains(l, "<h3"@) && utf8_len(h3_text(l)) > 15 {
            seq!["- "@ + h3_text(l)]
        } else {
            Seq::<Seq<char>>::empty()
        }
    }
}

/// The summary of a result page: its first eight result lines, joined by
/// newlines.
pub open spec fn google_summary(html: Seq<char>) -> Seq<char> {
    let items = google_items(lines(html));
    join(items.take(if items.len() < 8 { items.len() as int } else { 8 }), "\n"@)
}

fn h3_text_exec(line: &[char]) -> (r: Vec<char>)
    ensures
        r@ == h3_text(line@),
{
    let parts = split_chars(line, '<');
    let ghost sp = split_char(line@, '<');
    let ghost keep = |p: Seq<char>| !has_char(p, '>');
    let mut kept: Vec<Vec<char>> = Vec::new();
    let n = parts.len();
    let mut i: usize = 0;
    while i < n
        invariant
            n == parts@.len(),
            n == sp.len(),
            sp == split_char(line@, '<'),
            forall|k: int| 0 <= k < n ==> #[trigger] parts@[k]@ == sp[k],
            keep == (|p: Seq<char>| !has_char(p, '>')),
            i <= n,
            kept@.map_values(|v: Vec<char>| v@) == sp.take(i as int).filter(keep),
        decreases n - i,
    {
        proof {
            assert(sp.take(i + 1).drop_last() =~= sp.take(i as int));
            reveal_with_fuel(Seq::<_>::filter, 1);
        }
        if !has_char_exec(parts[i].as_slice(), '>') {
            let ghost before = kept@;
            kept.push(parts[i].clone());
            assert(kept@.map_values(|v: Vec<char>| v@) =~= before.map_values(|v: Vec<char>| v@).push(sp[i as int]));
        }
        i = i + 1;
    }
    assert(sp.take(n as int) =~= sp);
    let sep = chars_of(" ");
    let joined = join_chars(&kept, sep.as_slice());
    trim_chars(joined.as_slice())
}

/// The summary of a Google result page (its `<h3>` headings).
pub fn google_results(html: &str) -> (r: String)
    ensures
        r@ == google_summary(html@),
{
    let hc = chars_of(html);
    let ls = lines_chars(hc.as_slice());
    let ghost lv = lines(html@);
    let marker = chars_of("<h3");
    let mut items: Vec<Vec<char>> = Vec::new();
    let n = ls.len();
    let mut i: usize = 0;
    while i < n
        invariant
            n == ls@.len(),
            n == lv.len(),
            lv == lines(html@),
            forall|k: int| 0 <= k < n ==> #[trigger] ls@[k]@ == lv[k],
            marker@ == "<h3"@,
            i <= n,
            items@.map_values(|v: Vec<char>| v@) == google_items(lv.take(i as int)),
        decreases n - i,
    {
        let l = &ls[i];
        proof {
            assert(lv.take(i + 1).drop_last() =~= lv.take(i as int));
            assert(lv.take(i + 1).last() == lv[i as int]);
        }
        let ghost before = items@;
        if contains_chars(l.as_slice(), marker.as_slice()) {
            let c = h3_text_exec(l.as_slice());
            if utf8_len_exceeds(c.as_slice(), 15) {
                let mut b: Vec<char> = Vec::new();
                push_str(&mut b, "- ");
                append_chars(&mut b, c.as_slice());
                items.push(b);
                assert(items@.map_values(|v: Vec<char>| v@) =~= before.map_values(|v: Vec<char>| v@) + seq!["- "@ + h3_text(lv[i as int])]);
            } else {
                assert(items@.map_values(|v: Vec<char>| v@) =~= before.map_values(|v: Vec<char>| v@) + Seq::<Seq<char>>::empty());
            }
        } else {
            assert(items@.map_values(|v: Vec<char>| v@) =~= before.map_values(|v: Vec<char>| v@) + Seq::<Seq<char>>::empty());
        }
        i = i + 1;
    }
    assert(lv.take(n as int) =~= lv);
    let lim = if items.len() < 8 { items.len() } else { 8 };
    let mut top: Vec<Vec<char>> = Vec::new();
    let mut k: usize = 0;
    while k < lim
        invariant
            lim <= items@.len(),
            k <= lim,
            top@.map_values(|v: Vec<char>| v@) == items@.map_values(|v: Vec<char>| v@).take(k as int),
        decreases lim - k,
    {
        let ghost before = top@;
        top.push(items[k].clone());
        assert(top@.map_values(|v: Vec<char>| v@) =~= before.map_values(|v: Vec<char>| v@).push(items@[k as int]@));
        assert(items@.map_values(|v: Vec<char>| v@).take(k + 1) =~= items@.map_values(|v: Vec<char>| v@).take(k as int).push(items@[k as int]@));
        k = k + 1;
    }
    let sep = chars_of("\n");
    let joined = join_chars(&top, sep.as_slice());
    string_from_chars(joined.as_slice())
}

// ───────────────────────── browser page text ─────────────────────────

/// The useful lines of a page's text: trimmed lines longer than 20 bytes that
/// mention neither `Cookie`, `Terms` nor `Privacy`.
pub open spec fn page_lines(ls: Seq<Seq<char>>) -> Seq<Seq<char>>
    decreases ls.len(),
{
    if ls.len() == 0 {
        Seq::<Seq<char>>::empty()
    } else {
        let l = trim(ls.last());
        page_lines(ls.drop_last()) + if utf8_len(l) > 20 && !seq_contains(l, "Cookie"@) && !seq_contains(l, "Terms"@) && !seq_contains(l, "Privacy"@) {
            seq![l]
        } else {
            Seq::<Seq<char>>::empty()
        }
    }
}

/// The cleaned text of a page, before truncation.
pub open spec fn page_clean(text: Seq<char>) -> Seq<char> {
    join(page_lines(lines(text)), "\n"@)
}

/// The text returned for a page: refused when the page has no text; else the
/// cleaned text, cut to 3000 bytes with `...[truncated]` when longer.
pub open spec fn page_result(text: Seq<char>) -> Result<Seq<char>, Seq<char>> {
    if text.len() == 0 {
        Err("No content from page"@)
    } else {
        let c = page_clean(text);
        if utf8_len(c) > 3000 {
            Ok(c.take(choose|k: int| 0 <= k <= c.len() && utf8_len(#[trigger] c.take(k)) == 3000) + "...[truncated]"@)
        } else {
            Ok(c)
        }
    }
}

/// The view of a text result.
pub open spec fn text_result_view(r: Result<String, String>) -> Result<Seq<char>, Seq<char>> {
    match r {
        Ok(s) => Ok(s@),
        Err(e) => Err(e@),
    }
}

/// The cleaned text of a page.
fn page_clean_chars(text: &str) -> (c: Vec<char>)
    ensures
        c@ == page_clean(text@),
{
    let tc = chars_of(text);
    let ls = lines_chars(tc.as_slice());
    let ghost lv = lines(text@);
    let cookie = chars_of("Cookie");
    let terms = chars_of("Terms");
    let privacy = chars_of("Privacy");
    let mut kept: Vec<Vec<char>> = Vec::new();
    let n = ls.len();
    let mut i: usize = 0;
    while i < n
        invariant
            n == ls@.len(),
            n == lv.len(),
            lv == lines(text@),
            forall|k: int| 0 <= k < n ==> #[trigger] ls@[k]@ == lv[k],
            cookie@ == "Cookie"@,
            terms@ == "Terms"@,
            privacy@ == "Privacy"@,
            i <= n,
            kept@.map_values(|v: Vec<char>| v@) == page_lines(lv.take(i as int)),
        decreases n - i,
    {
        let l = trim_chars(ls[i].as_slice());
        proof {
            assert(lv.take(i + 1).drop_last() =~= lv.take(i as int));
            assert(lv.take(i + 1).last() == lv[i as int]);
        }
        let ghost before = kept@;
        if utf8_len_exceeds(l.as_slice(), 20) && !contains_chars(l.as_slice(), cookie.as_slice())
            && !contains_chars(l.as_slice(), terms.as_slice()) && !contains_chars(l.as_slice(), privacy.as_slice()) {
            kept.push(l);
            assert(kept@.map_values(|v: Vec<char>| v@) =~= before.map_values(|v: Vec<char>| v@) + seq![trim(lv[i as int])]);
        } else {
            assert(kept@.map_values(|v: Vec<char>| v@) =~= before.map_values(|v: Vec<char>| v@) + Seq::<Seq<char>>::empty());
        }
        i = i + 1;
    }
    assert(lv.take(n as int) =~= lv);
    let sep = chars_of("\n");
    let c = join_chars(&kept, sep.as_slice());
    assert(c@ == page_clean(text@));
    c
}

/// The page result of a cleaned text `c` of a non-empty page.
fn page_cut(c: Vec<char>) -> (r: String)
    requires
        utf8_len(c@) > 3000 ==> is_boundary(c@, 3000),
    ensures
        r@ == (if utf8_len(c@) > 3000 {
            c@.take(choose|k: int| 0 <= k <= c@.len() && utf8_len(#[trigger] c@.take(k)) == 3000) + "...[truncated]"@
        } else {
            c@
        }),
{
    if utf8_len_exceeds(c.as_slice(), 3000) {
        let mut out = cut_at_byte(c.as_slice(), 3000);
        push_str(&mut out, "...[truncated]");
        string_from_chars(out.as_slice())
    } else {
        string_from_chars(c.as_slice())
    }
}

/// Cleans the text of a browser page.  A cut at 3000 bytes that would fall
/// inside a character is left out by `requires`.
pub fn page_text(text: &str) -> (r: Result<String, String>)
    requires
        utf8_len(page_clean(text@)) > 3000 ==> is_boundary(page_clean(text@), 3000),
    ensures
        text_result_view(r) == page_result(text@),
{
    if text.is_empty() {
        return Err(owned("No content from page"));
    }
    let c = page_clean_chars(text);
    Ok(page_cut(c))
}

/// The cleaned text of a browser page as `page_text` gives it, or nothing
/// when the cut at 3000 bytes would fall inside a character.
pub fn page_text_checked(text: &str) -> (r: Option<Result<String, String>>)
    ensures
        match r {
            Some(x) => text_result_view(x) == page_result(text@),
            None => text@.len() > 0 && utf8_len(page_clean(text@)) > 3000 && !is_boundary(page_clean(text@), 3000),
        },
{
    if text.is_empty() {
        return Some(Err(owned("No content from page")));
    }
    let c = page_clean_chars(text);
    if utf8_len_exceeds(c.as_slice(), 3000) {
        match char_count_at_byte(c.as_slice(), 3000) {
            Some(_) => {},
            None => {
                return None;
            },
        }
    }
    Some(Ok(page_cut(c)))
}

// ───────────────────────── browser protocol ids ─────────────────────────

/// The ids of browser protocol commands: each command gets the next id.
pub struct CdpIds {
    next: i64,
}

impl CdpIds {
    /// The id the next command gets.
    pub closed spec fn upcoming(&self) -> i64 {
        self.next
    }

    /// Ids starting at 1.
    pub fn new() -> (r: Self)
        ensures
            r.upcoming() == 1,
    {
        CdpIds { next: 1 }
    }

    /// The id for a new command; ids count up by one (wrapping around).
    pub fn next_id(&mut self) -> (r: i64)
        ensures
            r == old(self).upcoming(),
            final(self).upcoming() == if old(self).upcoming() == i64::MAX { i64::MIN } else { (old(self).upcoming() + 1) as i64 },
    {
        let r = self.next;
        self.next = if self.next == i64::MAX { i64::MIN } else { self.next + 1 };
        r
    }
}

/// A search result framed for the chat: `[<label>]`, then the text between
/// two `---` lines.
pub fn framed_result(label: &str, body: &str) -> (r: String)
    ensures
        r@ == "["@ + label@ + "]\n---\n"@ + body@ + "\n---"@,
{
    let mut m: Vec<char> = Vec::new();
    push_str(&mut m, "[");
    push_str(&mut m, label);
    push_str(&mut m, "]\n---\n");
    push_str(&mut m, body);
    push_str(&mut m, "\n---");
    string_from_chars(m.as_slice())
}

} // verus!

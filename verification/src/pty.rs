//! Conversations with command-line tools: when to stop waiting for output,
//! and how the output is cleaned before it is shown.
use vstd::prelude::*;
use crate::text::{
    chars_eq, chars_of, contains_chars, join, join_chars, lines, lines_chars, seq_contains,
    string_from_chars, trim, trim_chars,
};

verus! {

/// A line of tool output is kept when, trimmed, it is not empty, is not the
/// message that was sent, and holds no shell prompt (`$ `, `> `, `PS `).
pub open spec fn keep_line(l: Seq<char>, sent: Seq<char>) -> bool {
    let t = trim(l);
    t.len() > 0 && t != sent && !seq_contains(t, "$ "@) && !seq_contains(t, "> "@) && !seq_contains(t, "PS "@)
}

/// The kept lines, untrimmed, in order.
pub open spec fn kept_lines(ls: Seq<Seq<char>>, sent: Seq<char>) -> Seq<Seq<char>>
    decreases ls.len(),
{
    if ls.len() == 0 {
        Seq::<Seq<char>>::empty()
    } else {
        kept_lines(ls.drop_last(), sent) + if keep_line(ls.last(), sent) {
            seq![ls.last()]
        } else {
            Seq::<Seq<char>>::empty()
        }
    }
}

/// The cleaned output: the kept lines joined by newlines, trimmed.
pub open spec fn cleaned(output: Seq<char>, sent: Seq<char>) -> Seq<char> {
    trim(join(kept_lines(lines(output), sent), "\n"@))
}

/// Cleans the output a tool wrote after `sent_message` was sent to it.
pub fn clean_output(output: &str, sent_message: &str) -> (r: String)
    ensures
        r@ == cleaned(output@, sent_message@),
{
    let oc = chars_of(output);
    let sc = chars_of(sent_message);
    let ls = lines_chars(oc.as_slice());
    let ghost lv = lines(output@);
    let p1 = chars_of("$ ");
    let p2 = chars_of("> ");
    let p3 = chars_of("PS ");
    let mut kept: Vec<Vec<char>> = Vec::new();
    let n = ls.len();
    let mut i: usize = 0;
    while i < n
        invariant
            n == ls@.len(),
            n == lv.len(),
            lv == lines(output@),
            sc@ == sent_message@,
            forall|k: int| 0 <= k < n ==> #[trigger] ls@[k]@ == lv[k],
            p1@ == "$ "@,
            p2@ == "> "@,
            p3@ == "PS "@,
            i <= n,
            kept@.map_values(|v: Vec<char>| v@) == kept_lines(lv.take(i as int), sent_message@),
        decreases n - i,
    {
        let l = &ls[i];
        let t = trim_chars(l.as_slice());
        proof {
            assert(lv.take(i + 1).drop_last() =~= lv.take(i as int));
            assert(lv.take(i + 1).last() == lv[i as int]);
        }
        let ghost before = kept@;
        if t.len() > 0 && !chars_eq(t.as_slice(), sc.as_slice()) && !contains_chars(t.as_slice(), p1.as_slice())
            && !contains_chars(t.as_slice(), p2.as_slice()) && !contains_chars(t.as_slice(), p3.as_slice()) {
            kept.push(l.clone());
            assert(kept@.map_values(|v: Vec<char>| v@) =~= before.map_values(|v: Vec<char>| v@) + seq![lv[i as int]]);
        } else {
            assert(kept@.map_values(|v: Vec<char>| v@) =~= before.map_values(|v: Vec<char>| v@) + Seq::<Seq<char>>::empty());
        }
        i = i + 1;
    }
    assert(lv.take(n as int) =~= lv);
    let sep = chars_of("\n");
    let joined = join_chars(&kept, sep.as_slice());
    let t = trim_chars(joined.as_slice());
    string_from_chars(t.as_slice())
}

/// How long a reply may take, in milliseconds.
pub const REPLY_TIMEOUT_MS: u64 = 15000;

/// Watches the output buffer of a tool while it replies: the reply is taken
/// once the buffer is not empty and has not grown for more than five checks,
/// or once the reply has taken longer than the time-out.
pub struct OutputWatch {
    last_len: usize,
    stable: u64,
}

impl OutputWatch {
    /// The buffer length seen at the last growth.
    pub closed spec fn last_len(&self) -> usize {
        self.last_len
    }

    /// The number of checks since the buffer last grew.
    pub closed spec fn stable(&self) -> u64 {
        self.stable
    }

    /// A watch before the first check.
    pub fn new() -> (r: Self)
        ensures
            r.last_len() == 0,
            r.stable() == 0,
    {
        OutputWatch { last_len: 0, stable: 0 }
    }

    /// One check: the buffer holds `len` characters after `elapsed_ms`
    /// milliseconds.  Answers whether to take the reply now.
    pub fn observe(&mut self, len: usize, elapsed_ms: u64) -> (done: bool)
        ensures
            len > old(self).last_len() ==> final(self).last_len() == len && final(self).stable() == 0,
            len <= old(self).last_len() ==> final(self).last_len() == old(self).last_len()
                && final(self).stable() == if old(self).stable() == u64::MAX { u64::MAX } else { (old(self).stable() + 1) as u64 },
            done == ((final(self).stable() > 5 && len > 0) || elapsed_ms > REPLY_TIMEOUT_MS),
    {
        if len > self.last_len {
            self.stable = 0;
            self.last_len = len;
        } else if self.stable < u64::MAX {
            self.stable = self.stable + 1;
        }
        (self.stable > 5 && len > 0) || elapsed_ms > REPLY_TIMEOUT_MS
    }
}

} // verus!

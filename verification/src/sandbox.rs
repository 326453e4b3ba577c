//! Path sandbox: a guard that admits file paths under allowed directories and
//! refuses paths that match denied patterns, plus the permission model.
use vstd::prelude::*;
use crate::text::{
    append_chars, chars_eq, chars_of, contains_chars, has_char, has_char_exec, join, join_chars,
    lowercase_chars, owned, push_str, replace_char, replace_char_exec, seq_contains,
    seq_starts_with, spec_lowercase, split_char, split_chars, starts_with_chars, string_from_chars,
};

verus! {

/// How much file-system access a caller has.
#[derive(Debug, Clone, Copy, PartialEq, Eq, Structural)]
pub enum PermissionLevel {
    Restricted,
    FullAccess,
}

impl Default for PermissionLevel {
    fn default() -> (r: Self)
        ensures
            r == PermissionLevel::Restricted,
    {
        PermissionLevel::Restricted
    }
}

/// The views of a list of strings.
pub open spec fn str_views(v: Seq<String>) -> Seq<Seq<char>> {
    v.map_values(|s: String| s@)
}

/// Views of a list with one more string.
pub proof fn lemma_str_views_push(v: Seq<String>, s: String)
    ensures
        str_views(v.push(s)) == str_views(v).push(s@),
{
    assert(str_views(v.push(s)) =~= str_views(v).push(s@));
}

/// A path with every `/` turned into `\`, the form in which paths are compared.
pub open spec fn normalize(p: Seq<char>) -> Seq<char> {
    replace_char(p, '/', '\\')
}

/// A pattern with a `*` matches a path when, component by component (split at
/// `\`), every pattern component is `*` or equals the path component, ignoring
/// case.
pub open spec fn wildcard_matches(pat: Seq<char>, pathn: Seq<char>) -> bool {
    let pp = split_char(pat, '\\');
    let xp = split_char(pathn, '\\');
    pp.len() <= xp.len() && forall|i: int|
        0 <= i < pp.len() ==> (#[trigger] pp[i] == seq!['*'] || spec_lowercase(xp[i])
            == spec_lowercase(pp[i]))
}

/// The refusal a single denied pattern gives for a normalized path, if any.
pub open spec fn denial_message(pat: Seq<char>, pathn: Seq<char>) -> Option<Seq<char>> {
    if has_char(pat, '*') {
        if wildcard_matches(pat, pathn) {
            Some("Path denied: matches '"@ + pat + "'"@)
        } else {
            None
        }
    } else if seq_contains(spec_lowercase(pathn), spec_lowercase(pat)) {
        Some("Path denied: contains '"@ + pat + "'"@)
    } else {
        None
    }
}

/// The refusal of the first denied pattern, from position `i` on, that matches.
pub open spec fn first_denial(pats: Seq<Seq<char>>, pathn: Seq<char>, i: int) -> Option<Seq<char>>
    decreases pats.len() - i,
{
    if i < 0 || i >= pats.len() {
        None
    } else {
        match denial_message(pats[i], pathn) {
            Some(m) => Some(m),
            None => first_denial(pats, pathn, i + 1),
        }
    }
}

/// The path `p` is the directory `dir` or lies below it, comparing whole
/// components (separated by `\`): `dir` begins `p`, and `p` ends there, or
/// `dir` ends with a separator, or a separator follows in `p`.
pub open spec fn within(p: Seq<char>, dir: Seq<char>) -> bool {
    &&& seq_starts_with(p, dir)
    &&& (p.len() == dir.len() || (dir.len() > 0 && dir.last() == '\\') || p[dir.len() as int] == '\\')
}

/// The normalized path lies within some allowed directory, ignoring case.
pub open spec fn allowed_by(prefixes: Seq<Seq<char>>, pathn: Seq<char>) -> bool {
    exists|i: int|
        0 <= i < prefixes.len() && within(
            spec_lowercase(pathn),
            spec_lowercase(normalize(#[trigger] prefixes[i])),
        )
}

/// The normalized path has a `..` component, which could climb out of a
/// directory.
pub open spec fn climbs(pathn: Seq<char>) -> bool {
    split_char(pathn, '\\').contains(".."@)
}

/// `format!("{:?}", Path::new(p))`: a path in debug form (quoted, escaped).
pub uninterp spec fn spec_path_debug(p: Seq<char>) -> Seq<char>;

/// A list of paths in debug form, as `Vec<PathBuf>` prints with `{:?}`.
pub open spec fn debug_path_list(ps: Seq<Seq<char>>) -> Seq<char> {
    "["@ + join(ps.map_values(|p: Seq<char>| spec_path_debug(p)), ", "@) + "]"@
}

/// The refusal for a path under none of the allowed directories.
pub open spec fn outside_message(path: Seq<char>, prefixes: Seq<Seq<char>>) -> Seq<char> {
    "Path '"@ + path + "' is outside allowed directories. Allowed: "@ + debug_path_list(prefixes)
}

/// The refusal of a path with a `..` component.
pub open spec fn parent_refusal() -> Seq<char> {
    "Path denied: contains '..'"@
}

/// What `check` answers: full access admits everything; otherwise the first
/// matching denied pattern refuses, then a `..` component refuses, then an
/// allowed directory that holds the path admits, and any other path is
/// refused as outside the allowed directories.
pub open spec fn check_spec(
    allowed: Seq<Seq<char>>,
    denied: Seq<Seq<char>>,
    path: Seq<char>,
    level: PermissionLevel,
) -> Result<(), Seq<char>> {
    if level == PermissionLevel::FullAccess {
        Ok(())
    } else {
        let pn = normalize(path);
        match first_denial(denied, pn, 0) {
            Some(m) => Err(m),
            None => if climbs(pn) {
                Err(parent_refusal())
            } else if allowed_by(allowed, pn) {
                Ok(())
            } else {
                Err(outside_message(path, allowed))
            },
        }
    }
}

/// The view of a check result.
pub open spec fn result_view(r: Result<(), String>) -> Result<(), Seq<char>> {
    match r {
        Ok(()) => Ok(()),
        Err(e) => Err(e@),
    }
}

/// The debug form of a path (`Path`'s `Debug` output).
#[verifier::external_body]
fn path_debug(p: &str) -> (r: String)
    ensures
        r@ == spec_path_debug(p@),
{
    format!("{:?}", std::path::Path::new(p))
}

/// `Path::new(a) == Path::new(b)`: the two paths have the same components,
/// as the platform's path syntax splits them.
pub uninterp spec fn spec_same_path(a: Seq<char>, b: Seq<char>) -> bool;

/// Whether two paths are equal as `Path` values (component-wise).  Equal
/// strings are always equal paths; which other strings compare equal depends
/// on the platform's path syntax and is only named.
#[verifier::external_body]
fn same_path(a: &str, b: &str) -> (r: bool)
    ensures
        r == spec_same_path(a@, b@),
        a@ == b@ ==> r,
{
    std::path::Path::new(a) == std::path::Path::new(b)
}

/// Some path of `ps` equals `p` as a `Path`.
pub open spec fn path_listed(ps: Seq<Seq<char>>, p: Seq<char>) -> bool {
    exists|k: int| 0 <= k < ps.len() && #[trigger] spec_same_path(ps[k], p)
}

/// The denied patterns of `PathGuard::new`.
pub open spec fn guard_patterns() -> Seq<Seq<char>> {
    seq![
        "\\Windows\\System32"@,
        "\\Windows\\System"@,
        "\\Program Files"@,
        "\\.ssh"@,
        "/etc/shadow"@,
        "/etc/passwd"@,
    ]
}

/// The denied patterns of the standard guard (`PathGuard::standard`).
pub open spec fn standard_patterns() -> Seq<Seq<char>> {
    seq![
        "\\Windows\\System32"@,
        "\\Windows\\System"@,
        "\\Program Files"@,
        "\\Program Files (x86)"@,
        "\\.ssh"@,
        "/etc/shadow"@,
        "/etc/passwd"@,
    ]
}

/// Admits paths under allowed directory prefixes and refuses paths matching
/// denied patterns.
pub struct PathGuard {
    allowed_prefixes: Vec<String>,
    denied_patterns: Vec<String>,
}

impl PathGuard {
    /// The allowed directory prefixes, in order.
    pub closed spec fn allowed(&self) -> Seq<Seq<char>> {
        str_views(self.allowed_prefixes@)
    }

    /// The denied patterns, in order.
    pub closed spec fn denied(&self) -> Seq<Seq<char>> {
        str_views(self.denied_patterns@)
    }

    /// A guard over the given directories with the standard denied patterns.
    pub fn new(allowed: Vec<String>) -> (g: Self)
        ensures
            g.allowed() == str_views(allowed@),
            g.denied() == guard_patterns(),
    {
        let denied = vec![
            owned("\\Windows\\System32"),
            owned("\\Windows\\System"),
            owned("\\Program Files"),
            owned("\\.ssh"),
            owned("/etc/shadow"),
            owned("/etc/passwd"),
        ];
        let g = PathGuard { allowed_prefixes: allowed, denied_patterns: denied };
        assert(g.denied() =~= guard_patterns());
        g
    }

    /// The default guard: the given default directories, and the denied
    /// patterns extended with `\Program Files (x86)`.
    pub fn standard(allowed: Vec<String>) -> (g: Self)
        ensures
            g.allowed() == str_views(allowed@),
            g.denied() == standard_patterns(),
    {
        let denied = vec![
            owned("\\Windows\\System32"),
            owned("\\Windows\\System"),
            owned("\\Program Files"),
            owned("\\Program Files (x86)"),
            owned("\\.ssh"),
            owned("/etc/shadow"),
            owned("/etc/passwd"),
        ];
        let g = PathGuard { allowed_prefixes: allowed, denied_patterns: denied };
        assert(g.denied() =~= standard_patterns());
        g
    }

    /// Decides whether `path` may be accessed at permission `level`.
    pub fn check(&self, path: &str, level: &PermissionLevel) -> (r: Result<(), String>)
        ensures
            result_view(r) == check_spec(self.allowed(), self.denied(), path@, *level),
    {
        if *level == PermissionLevel::FullAccess {
            return Ok(());
        }
        let pc = chars_of(path);
        let pn = replace_char_exec(pc.as_slice(), '/', '\\');
        let pl = lowercase_chars(pn.as_slice());
        let ghost pats = self.denied();
        let np = self.denied_patterns.len();
        let mut i: usize = 0;
        while i < np
            invariant
                np == self.denied_patterns@.len(),
                pats == self.denied(),
                pats == str_views(self.denied_patterns@),
                i <= np,
                pn@ == normalize(path@),
                pl@ == spec_lowercase(pn@),
                *level == PermissionLevel::Restricted,
                first_denial(pats, pn@, 0) == first_denial(pats, pn@, i as int),
            decreases np - i,
        {
            let pat = &self.denied_patterns[i];
            let patc = chars_of(pat.as_str());
            assert(pats[i as int] == patc@);
            if let Some(m) = denial_of(patc.as_slice(), pn.as_slice(), pl.as_slice()) {
                assert(first_denial(pats, pn@, i as int) == Some(m@));
                return Err(m);
            }
            i = i + 1;
        }
        if has_parent_component(pn.as_slice()) {
            proof {
                reveal_strlit("Path denied: contains '..'");
            }
            return Err(owned("Path denied: contains '..'"));
        }
        let ghost pres = self.allowed();
        let na = self.allowed_prefixes.len();
        let mut j: usize = 0;
        while j < na
            invariant
                na == self.allowed_prefixes@.len(),
                pres == self.allowed(),
                pres == str_views(self.allowed_prefixes@),
                j <= na,
                pl@ == spec_lowercase(pn@),
                pn@ == normalize(path@),
                *level == PermissionLevel::Restricted,
                first_denial(self.denied(), pn@, 0) is None,
                !climbs(pn@),
                forall|k: int|
                    0 <= k < j ==> !within(
                        spec_lowercase(pn@),
                        spec_lowercase(normalize(#[trigger] pres[k])),
                    ),
            decreases na - j,
        {
            let pre = &self.allowed_prefixes[j];
            let prc = chars_of(pre.as_str());
            let prn = replace_char_exec(prc.as_slice(), '/', '\\');
            let prl = lowercase_chars(prn.as_slice());
            assert(pres[j as int] == prc@);
            if within_exec(pl.as_slice(), prl.as_slice()) {
                return Ok(());
            }
            j = j + 1;
        }
        Err(outside_error(path, &self.allowed_prefixes))
    }

    /// `check` at the restricted level.
    pub fn check_read(&self, path: &str) -> (r: Result<(), String>)
        ensures
            result_view(r) == check_spec(
                self.allowed(),
                self.denied(),
                path@,
                PermissionLevel::Restricted,
            ),
    {
        self.check(path, &PermissionLevel::Restricted)
    }

    /// The allowed directories as strings.
    pub fn allowed_dirs_debug(&self) -> (r: Vec<String>)
        ensures
            str_views(r@) == self.allowed(),
    {
        let mut out: Vec<String> = Vec::new();
        let mut i: usize = 0;
        while i < self.allowed_prefixes.len()
            invariant
                i <= self.allowed_prefixes@.len(),
                str_views(out@) == str_views(self.allowed_prefixes@).take(i as int),
            decreases self.allowed_prefixes@.len() - i,
        {
            let s = self.allowed_prefixes[i].clone();
            let ghost before = out@;
            out.push(s);
            assert(out@ == before.push(self.allowed_prefixes@[i as int]));
            proof {
                lemma_str_views_push(before, self.allowed_prefixes@[i as int]);
                assert(str_views(self.allowed_prefixes@).take(i + 1) =~= str_views(
                    self.allowed_prefixes@,
                ).take(i as int).push(self.allowed_prefixes@[i as int]@));
            }
            i = i + 1;
        }
        assert(str_views(self.allowed_prefixes@).take(i as int) =~= str_views(
            self.allowed_prefixes@,
        ));
        out
    }

    /// Adds a directory to the allowed list unless an equal path (as a
    /// `Path`) is already there; the denied patterns stay as they are.
    pub fn add_allowed(&mut self, path: String)
        ensures
            final(self).denied() == old(self).denied(),
            path_listed(old(self).allowed(), path@) ==> final(self).allowed() == old(self).allowed(),
            !path_listed(old(self).allowed(), path@) ==> final(self).allowed() == old(self).allowed().push(path@),
            old(self).allowed().contains(path@) ==> final(self).allowed() == old(self).allowed(),
    {
        let ghost before = self.allowed();
        let n = self.allowed_prefixes.len();
        let mut i: usize = 0;
        while i < n
            invariant
                n == self.allowed_prefixes@.len(),
                before == self.allowed(),
                before == str_views(self.allowed_prefixes@),
                i <= n,
                forall|k: int| 0 <= k < i ==> !spec_same_path(#[trigger] before[k], path@),
                forall|k: int| 0 <= k < i ==> #[trigger] before[k] != path@,
            decreases n - i,
        {
            if same_path(self.allowed_prefixes[i].as_str(), path.as_str()) {
                assert(spec_same_path(before[i as int], path@));
                return;
            }
            i = i + 1;
        }
        proof {
            if before.contains(path@) {
                let k = choose|k: int| 0 <= k < before.len() && before[k] == path@;
                assert(before[k] != path@);
            }
        }
        self.allowed_prefixes.push(path);
        assert(self.allowed() =~= before.push(path@));
    }
}

/// Whether the path `p` lies within the directory `dir`, comparing whole
/// components.
fn within_exec(p: &[char], dir: &[char]) -> (r: bool)
    ensures
        r == within(p@, dir@),
{
    if !starts_with_chars(p, dir) {
        return false;
    }
    p.len() == dir.len() || (dir.len() > 0 && dir[dir.len() - 1] == '\\') || p[dir.len()] == '\\'
}

/// Whether the normalized path has a `..` component.
fn has_parent_component(pn: &[char]) -> (r: bool)
    ensures
        r == climbs(pn@),
{
    let parts = split_chars(pn, '\\');
    let ghost sp = split_char(pn@, '\\');
    let dots = chars_of("..");
    let n = parts.len();
    let mut i: usize = 0;
    while i < n
        invariant
            n == parts@.len(),
            n == sp.len(),
            sp == split_char(pn@, '\\'),
            forall|k: int| 0 <= k < n ==> #[trigger] parts@[k]@ == sp[k],
            dots@ == ".."@,
            i <= n,
            forall|k: int| 0 <= k < i ==> sp[k] != ".."@,
        decreases n - i,
    {
        if chars_eq(parts[i].as_slice(), dots.as_slice()) {
            assert(sp[i as int] == ".."@);
            return true;
        }
        i = i + 1;
    }
    false
}

/// The refusal one pattern gives for a normalized path (`pl` is its lowercase form).
fn denial_of(pat: &[char], pn: &[char], pl: &[char]) -> (r: Option<String>)
    requires
        pl@ == spec_lowercase(pn@),
    ensures
        match r {
            Some(m) => denial_message(pat@, pn@) == Some(m@),
            None => denial_message(pat@, pn@) is None,
        },
{
    if has_char_exec(pat, '*') {
        if wildcard_matches_exec(pat, pn) {
            let mut m: Vec<char> = Vec::new();
            push_str(&mut m, "Path denied: matches '");
            append_chars(&mut m, pat);
            push_str(&mut m, "'");
            assert(m@ =~= "Path denied: matches '"@ + pat@ + "'"@);
            return Some(string_from_chars(m.as_slice()));
        }
        None
    } else {
        let patl = lowercase_chars(pat);
        if contains_chars(pl, patl.as_slice()) {
            let mut m: Vec<char> = Vec::new();
            push_str(&mut m, "Path denied: contains '");
            append_chars(&mut m, pat);
            push_str(&mut m, "'");
            assert(m@ =~= "Path denied: contains '"@ + pat@ + "'"@);
            return Some(string_from_chars(m.as_slice()));
        }
        None
    }
}

/// Component-wise wildcard match of a pattern against a normalized path.
fn wildcard_matches_exec(pat: &[char], pn: &[char]) -> (r: bool)
    ensures
        r == wildcard_matches(pat@, pn@),
{
    let pp = split_chars(pat, '\\');
    let xp = split_chars(pn, '\\');
    let ghost spp = split_char(pat@, '\\');
    let ghost sxp = split_char(pn@, '\\');
    assert(spp == split_char(pat@, '\\'));
    if pp.len() > xp.len() {
        return false;
    }
    let star = vec!['*'];
    let mut i: usize = 0;
    while i < pp.len()
        invariant
            pp@.len() == spp.len(),
            xp@.len() == sxp.len(),
            pp@.len() <= xp@.len(),
            forall|k: int| 0 <= k < pp@.len() ==> #[trigger] pp@[k]@ == spp[k],
            forall|k: int| 0 <= k < xp@.len() ==> #[trigger] xp@[k]@ == sxp[k],
            star@ == seq!['*'],
            spp == split_char(pat@, '\\'),
            sxp == split_char(pn@, '\\'),
            i <= pp@.len(),
            forall|k: int|
                0 <= k < i ==> (#[trigger] spp[k] == seq!['*'] || spec_lowercase(sxp[k])
                    == spec_lowercase(spp[k])),
        decreases pp@.len() - i,
    {
        let part = &pp[i];
        if !chars_eq(part.as_slice(), star.as_slice()) {
            let a = lowercase_chars(xp[i].as_slice());
            let b = lowercase_chars(part.as_slice());
            if !chars_eq(a.as_slice(), b.as_slice()) {
                assert(!(spp[i as int] == seq!['*'] || spec_lowercase(sxp[i as int])
                    == spec_lowercase(spp[i as int])));
                return false;
            }
        }
        i = i + 1;
    }
    true
}

/// The refusal for a path outside every allowed directory.
fn outside_error(path: &str, allowed: &Vec<String>) -> (r: String)
    ensures
        r@ == outside_message(path@, str_views(allowed@)),
{
    let mut m: Vec<char> = Vec::new();
    push_str(&mut m, "Path '");
    push_str(&mut m, path);
    push_str(&mut m, "' is outside allowed directories. Allowed: ");
    let mut shown: Vec<Vec<char>> = Vec::new();
    let mut i: usize = 0;
    while i < allowed.len()
        invariant
            i <= allowed@.len(),
            shown@.len() == i,
            forall|k: int|
                0 <= k < i ==> #[trigger] shown@[k]@ == spec_path_debug(allowed@[k]@),
        decreases allowed@.len() - i,
    {
        let d = path_debug(allowed[i].as_str());
        shown.push(chars_of(d.as_str()));
        i = i + 1;
    }
    let sep = chars_of(", ");
    let body = join_chars(&shown, sep.as_slice());
    assert(shown@.map_values(|p: Vec<char>| p@) =~= str_views(allowed@).map_values(
        |p: Seq<char>| spec_path_debug(p),
    ));
    push_str(&mut m, "[");
    append_chars(&mut m, body.as_slice());
    push_str(&mut m, "]");
    assert(m@ =~= outside_message(path@, str_views(allowed@)));
    string_from_chars(m.as_slice())
}

/// Permissions attached to a tool.
#[derive(Debug)]
pub struct ToolPermissions {
    pub level: PermissionLevel,
    pub allowed_paths: Option<Vec<String>>,
}

impl Clone for ToolPermissions {
    fn clone(&self) -> (r: Self)
        ensures
            r.level == self.level,
            match (r.allowed_paths, self.allowed_paths) {
                (Some(a), Some(b)) => a@ == b@,
                (None, None) => true,
                _ => false,
            },
    {
        ToolPermissions {
            level: self.level,
            allowed_paths: match &self.allowed_paths {
                Some(v) => Some(crate::models::clone_strings(v)),
                None => None,
            },
        }
    }
}

impl Default for ToolPermissions {
    fn default() -> (r: Self)
        ensures
            r.level == PermissionLevel::Restricted,
            r.allowed_paths is None,
    {
        ToolPermissions { level: PermissionLevel::Restricted, allowed_paths: None }
    }
}


/// A matching pattern at or after position `i` makes the scan from `i` refuse.
proof fn lemma_first_denial_some(pats: Seq<Seq<char>>, pathn: Seq<char>, i: int, k: int)
    requires
        0 <= i <= k < pats.len(),
        denial_message(pats[k], pathn) is Some,
    ensures
        first_denial(pats, pathn, i) is Some,
    decreases k - i,
{
    if i < k && denial_message(pats[i], pathn) is None {
        lemma_first_denial_some(pats, pathn, i + 1, k);
    }
}

/// With no matching pattern at or after position `i`, the scan from `i` refuses nothing.
proof fn lemma_first_denial_none(pats: Seq<Seq<char>>, pathn: Seq<char>, i: int)
    requires
        0 <= i,
        forall|k: int| i <= k < pats.len() ==> denial_message(#[trigger] pats[k], pathn) is None,
    ensures
        first_denial(pats, pathn, i) is None,
    decreases pats.len() - i,
{
    if i < pats.len() {
        lemma_first_denial_none(pats, pathn, i + 1);
    }
}

/// Full access admits every path, whatever the guard holds.
pub proof fn law_full_access_admits_every_path(
    allowed: Seq<Seq<char>>,
    denied: Seq<Seq<char>>,
    path: Seq<char>,
)
    ensures
        check_spec(allowed, denied, path, PermissionLevel::FullAccess) == Ok::<(), Seq<char>>(()),
{
}

/// At the restricted level a path that matches a denied pattern is refused,
/// even when it lies under an allowed directory.
pub proof fn law_denied_pattern_refuses(
    allowed: Seq<Seq<char>>,
    denied: Seq<Seq<char>>,
    path: Seq<char>,
    k: int,
)
    requires
        0 <= k < denied.len(),
        denial_message(denied[k], normalize(path)) is Some,
    ensures
        check_spec(allowed, denied, path, PermissionLevel::Restricted) is Err,
{
    lemma_first_denial_some(denied, normalize(path), 0, k);
}

/// At the restricted level a path that matches no denied pattern, has no
/// `..` component and lies within an allowed directory (whole components,
/// ignoring case and separator style) is admitted.
pub proof fn law_allowed_prefix_admits(
    allowed: Seq<Seq<char>>,
    denied: Seq<Seq<char>>,
    path: Seq<char>,
    k: int,
)
    requires
        0 <= k < allowed.len(),
        forall|j: int| 0 <= j < denied.len() ==> denial_message(#[trigger] denied[j], normalize(path)) is None,
        !climbs(normalize(path)),
        within(spec_lowercase(normalize(path)), spec_lowercase(normalize(allowed[k]))),
    ensures
        check_spec(allowed, denied, path, PermissionLevel::Restricted) == Ok::<(), Seq<char>>(()),
{
    lemma_first_denial_none(denied, normalize(path), 0);
}

/// At the restricted level the guard admits only paths within an allowed
/// directory (whole components, ignoring case and separator style) and
/// without a `..` component: file access stays inside the allowed
/// directories.
pub proof fn law_restricted_access_stays_inside(
    allowed: Seq<Seq<char>>,
    denied: Seq<Seq<char>>,
    path: Seq<char>,
)
    requires
        check_spec(allowed, denied, path, PermissionLevel::Restricted) is Ok,
    ensures
        allowed_by(allowed, normalize(path)),
        !climbs(normalize(path)),
        first_denial(denied, normalize(path), 0) is None,
{
}

/// Adding an allowed directory never withdraws access: a path admitted before
/// is still admitted after.
pub proof fn law_adding_allowed_keeps_access(
    allowed: Seq<Seq<char>>,
    denied: Seq<Seq<char>>,
    path: Seq<char>,
    level: PermissionLevel,
    extra: Seq<char>,
)
    requires
        check_spec(allowed, denied, path, level) is Ok,
    ensures
        check_spec(allowed.push(extra), denied, path, level) is Ok,
{
    if level != PermissionLevel::FullAccess {
        let pn = normalize(path);
        let i = choose|i: int|
            0 <= i < allowed.len() && within(
                spec_lowercase(pn),
                spec_lowercase(normalize(#[trigger] allowed[i])),
            );
        assert(allowed.push(extra)[i] == allowed[i]);
    }
}

} // verus!

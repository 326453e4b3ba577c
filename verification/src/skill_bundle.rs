//! Skill bundles: importable packages of prompts.  A bundle is installed as
//! one file; each of its skills becomes an installed skill with an id formed
//! from the bundle and skill names.
use vstd::prelude::*;
use crate::text::{
    append_chars, chars_of, lowercase_chars, push_str, replace_char, replace_char_exec,
    spec_lowercase, string_from_chars, owned, str_eq,
};

verus! {

/// One step of a skill.
#[derive(Debug)]
pub struct SkillStep {
    pub description: String,
    pub prompt: Option<String>,
}

/// One skill of a bundle.
#[derive(Debug)]
pub struct SkillItem {
    pub name: String,
    pub description: String,
    pub prompt: String,
    pub tools: Option<Vec<String>>,
    pub steps: Option<Vec<SkillStep>>,
}

/// A package of skills.
#[derive(Debug)]
pub struct SkillBundle {
    pub name: String,
    pub version: String,
    pub description: String,
    pub author: Option<String>,
    pub skills: Vec<SkillItem>,
}

/// A skill as installed.
#[derive(Debug)]
pub struct InstalledSkill {
    pub id: String,
    pub bundle_name: String,
    pub name: String,
    pub description: String,
    pub prompt: String,
    pub version: String,
    pub enabled: bool,
}

/// The id of skill `skill` of bundle `bundle`: `bundle_skill` with spaces
/// turned into `_`, lowercased.
pub open spec fn skill_id(bundle: Seq<char>, skill: Seq<char>) -> Seq<char> {
    spec_lowercase(replace_char(bundle + "_"@ + skill, ' ', '_'))
}

/// The id of a skill of a bundle.
pub fn fmt_id(bundle: &str, skill: &str) -> (r: String)
    ensures
        r@ == skill_id(bundle@, skill@),
{
    let mut m: Vec<char> = Vec::new();
    push_str(&mut m, bundle);
    push_str(&mut m, "_");
    push_str(&mut m, skill);
    let rep = replace_char_exec(m.as_slice(), ' ', '_');
    let low = lowercase_chars(rep.as_slice());
    string_from_chars(low.as_slice())
}

/// `s` is skill `item` of bundle `b` as installed.
pub open spec fn installed_from(s: InstalledSkill, b: SkillBundle, item: SkillItem) -> bool {
    &&& s.id@ == skill_id(b.name@, item.name@)
    &&& s.bundle_name == b.name
    &&& s.name == item.name
    &&& s.description == item.description
    &&& s.prompt == item.prompt
    &&& s.version == b.version
    &&& s.enabled
}

/// The installed skills of a bundle, one per skill, in order.
pub fn installed_skills(b: &SkillBundle) -> (r: Vec<InstalledSkill>)
    ensures
        r@.len() == b.skills@.len(),
        forall|i: int| 0 <= i < r@.len() ==> installed_from(#[trigger] r@[i], *b, b.skills@[i]),
{
    let mut out: Vec<InstalledSkill> = Vec::new();
    let n = b.skills.len();
    let mut i: usize = 0;
    while i < n
        invariant
            n == b.skills@.len(),
            i <= n,
            out@.len() == i,
            forall|k: int| 0 <= k < i ==> installed_from(#[trigger] out@[k], *b, b.skills@[k]),
        decreases n - i,
    {
        let item = &b.skills[i];
        out.push(InstalledSkill {
            id: fmt_id(b.name.as_str(), item.name.as_str()),
            bundle_name: b.name.clone(),
            name: item.name.clone(),
            description: item.description.clone(),
            prompt: item.prompt.clone(),
            version: b.version.clone(),
            enabled: true,
        });
        i = i + 1;
    }
    out
}

/// The installed skills of all bundles, bundle after bundle.
pub open spec fn all_installed(bundles: Seq<SkillBundle>) -> Seq<(SkillBundle, SkillItem)>
    decreases bundles.len(),
{
    if bundles.len() == 0 {
        Seq::<(SkillBundle, SkillItem)>::empty()
    } else {
        all_installed(bundles.drop_last()) + bundles.last().skills@.map_values(
            |it: SkillItem| (bundles.last(), it),
        )
    }
}

/// The skills of the installed bundles (`list_installed` once the bundle files
/// are read).
pub fn installed_from_bundles(bundles: &Vec<SkillBundle>) -> (r: Vec<InstalledSkill>)
    ensures
        r@.len() == all_installed(bundles@).len(),
        forall|i: int| 0 <= i < r@.len() ==> installed_from(#[trigger] r@[i], all_installed(bundles@)[i].0, all_installed(bundles@)[i].1),
{
    let mut out: Vec<InstalledSkill> = Vec::new();
    let n = bundles.len();
    let mut i: usize = 0;
    while i < n
        invariant
            n == bundles@.len(),
            i <= n,
            out@.len() == all_installed(bundles@.take(i as int)).len(),
            forall|k: int| 0 <= k < out@.len() ==> installed_from(#[trigger] out@[k], all_installed(bundles@.take(i as int))[k].0, all_installed(bundles@.take(i as int))[k].1),
        decreases n - i,
    {
        let b = &bundles[i];
        let ghost before = out@;
        let ghost prev = all_installed(bundles@.take(i as int));
        proof {
            assert(bundles@.take(i + 1).drop_last() =~= bundles@.take(i as int));
        }
        let sn = b.skills.len();
        let mut j: usize = 0;
        while j < sn
            invariant
                sn == b.skills@.len(),
                *b == bundles@[i as int],
                j <= sn,
                out@.len() == before.len() + j,
                forall|k: int| 0 <= k < before.len() ==> #[trigger] out@[k] == before[k],
                forall|k: int| before.len() <= k < out@.len() ==> installed_from(#[trigger] out@[k], *b, b.skills@[k - before.len()]),
            decreases sn - j,
        {
            let item = &b.skills[j];
            out.push(InstalledSkill {
                id: fmt_id(b.name.as_str(), item.name.as_str()),
                bundle_name: b.name.clone(),
                name: item.name.clone(),
                description: item.description.clone(),
                prompt: item.prompt.clone(),
                version: b.version.clone(),
                enabled: true,
            });
            j = j + 1;
        }
        proof {
            let next = all_installed(bundles@.take(i + 1));
            assert(next == prev + bundles@[i as int].skills@.map_values(|it: SkillItem| (bundles@[i as int], it)));
            assert forall|k: int| 0 <= k < out@.len() implies installed_from(#[trigger] out@[k], next[k].0, next[k].1) by {
                if k < before.len() {
                    assert(next[k] == prev[k]);
                } else {
                    assert(next[k] == (bundles@[i as int], bundles@[i as int].skills@[k - before.len()]));
                }
            }
        }
        i = i + 1;
    }
    assert(bundles@.take(n as int) =~= bundles@);
    out
}

/// The file name a bundle is saved under: its name with spaces turned into
/// `_`, lowercased, then `-v`, the version and `.json`.
pub open spec fn bundle_file_name(b: SkillBundle) -> Seq<char> {
    spec_lowercase(replace_char(b.name@, ' ', '_')) + "-v"@ + b.version@ + ".json"@
}

/// What installing a bundle gives: its file name and installed skills, or
/// the refusal of a bundle without skills.
pub fn install_plan(b: &SkillBundle) -> (r: Result<(String, Vec<InstalledSkill>), String>)
    ensures
        b.skills@.len() == 0 ==> (r matches Err(e) && e@ == "Bundle has no skills"@),
        b.skills@.len() > 0 ==> (r matches Ok((file, skills)) && file@ == bundle_file_name(*b)
            && skills@.len() == b.skills@.len() && forall|i: int| 0 <= i < skills@.len() ==> installed_from(#[trigger] skills@[i], *b, b.skills@[i])),
{
    if b.skills.len() == 0 {
        return Err(owned("Bundle has no skills"));
    }
    let nc = chars_of(b.name.as_str());
    let rep = replace_char_exec(nc.as_slice(), ' ', '_');
    let mut f = lowercase_chars(rep.as_slice());
    push_str(&mut f, "-v");
    push_str(&mut f, b.version.as_str());
    push_str(&mut f, ".json");
    Ok((string_from_chars(f.as_slice()), installed_skills(b)))
}

/// Whether a stored bundle is a version of the bundle named `name`.
pub fn same_bundle(stored: &SkillBundle, name: &str) -> (r: bool)
    ensures
        r == (stored.name@ == name@),
{
    str_eq(stored.name.as_str(), name)
}

/// The outcome of uninstalling the bundle `name`: success when some file of
/// it was removed.
pub fn uninstall_outcome(found: bool, name: &str) -> (r: Result<(), String>)
    ensures
        found ==> r is Ok,
        !found ==> (r matches Err(e) && e@ == "Bundle '"@ + name@ + "' not found"@),
{
    if found {
        Ok(())
    } else {
        let mut m: Vec<char> = Vec::new();
        push_str(&mut m, "Bundle '");
        push_str(&mut m, name);
        push_str(&mut m, "' not found");
        Err(string_from_chars(m.as_slice()))
    }
}

/// The test that a stored bundle is not a version of the bundle named `name`.
pub open spec fn other_bundle(name: Seq<char>) -> spec_fn(SkillBundle) -> bool {
    |x: SkillBundle| x.name@ != name
}

/// The stored bundles after installing `b`: every stored version of a bundle
/// with `b`'s name removed, then `b` stored.
pub open spec fn after_install(stored: Seq<SkillBundle>, b: SkillBundle) -> Seq<SkillBundle> {
    stored.filter(other_bundle(b.name@)).push(b)
}

/// Bundles none of which has the name `name` list no skill of that bundle name.
proof fn lemma_installed_names(s: Seq<SkillBundle>, name: Seq<char>)
    requires
        forall|j: int| 0 <= j < s.len() ==> (#[trigger] s[j]).name@ != name,
    ensures
        forall|i: int| 0 <= i < all_installed(s).len() ==> (#[trigger] all_installed(s)[i]).0.name@ != name,
    decreases s.len(),
{
    if s.len() > 0 {
        let d = s.drop_last();
        assert forall|j: int| 0 <= j < d.len() implies (#[trigger] d[j]).name@ != name by {
            assert(d[j] == s[j]);
        }
        lemma_installed_names(d, name);
        let a = all_installed(d);
        let t = s.last().skills@.map_values(|it: SkillItem| (s.last(), it));
        assert(all_installed(s) == a + t);
        assert forall|i: int| 0 <= i < all_installed(s).len() implies (#[trigger] all_installed(s)[i]).0.name@ != name by {
            if i < a.len() {
                assert(all_installed(s)[i] == a[i]);
            } else {
                assert(all_installed(s)[i] == t[i - a.len()]);
                assert(s.last() == s[s.len() - 1]);
            }
        }
    }
}

/// Installing a bundle, then listing the installed skills: the listing is
/// what the other stored bundles list, followed by exactly the skills of the
/// new bundle, in order; no other listed skill carries the new bundle's name.
pub proof fn law_install_then_list(stored: Seq<SkillBundle>, b: SkillBundle)
    ensures
        ({
            let others = stored.filter(other_bundle(b.name@));
            let listed = all_installed(after_install(stored, b));
            &&& listed.len() == all_installed(others).len() + b.skills@.len()
            &&& forall|i: int| 0 <= i < all_installed(others).len() ==> (#[trigger] listed[i]) == all_installed(others)[i]
                && listed[i].0.name@ != b.name@
            &&& forall|k: int| 0 <= k < b.skills@.len() ==> #[trigger] listed[all_installed(others).len() + k] == (b, b.skills@[k])
        }),
{
    let others = stored.filter(other_bundle(b.name@));
    let after = after_install(stored, b);
    assert(after.drop_last() =~= others);
    assert(after.last() == b);
    assert forall|j: int| 0 <= j < others.len() implies (#[trigger] others[j]).name@ != b.name@ by {
        stored.lemma_filter_pred(other_bundle(b.name@), j);
    }
    lemma_installed_names(others, b.name@);
}

/// Two installed skills with the same fields.
pub open spec fn same_skill(a: InstalledSkill, b: InstalledSkill) -> bool {
    &&& a.id@ == b.id@
    &&& a.bundle_name == b.bundle_name
    &&& a.name == b.name
    &&& a.description == b.description
    &&& a.prompt == b.prompt
    &&& a.version == b.version
    &&& a.enabled == b.enabled
}

/// `b` is the one bundle of `bundles` with its name, at position `p`.
pub open spec fn only_version_at(bundles: Seq<SkillBundle>, b: SkillBundle, p: int) -> bool {
    &&& 0 <= p < bundles.len()
    &&& bundles[p] == b
    &&& forall|j: int| 0 <= j < bundles.len() && j != p ==> (#[trigger] bundles[j]).name@ != b.name@
}

/// The skills listed from bundles holding `b` as the one bundle of its name
/// are `b`'s skills in a row, at some offset, and no other listed skill
/// carries `b`'s name.
proof fn lemma_listed_block(bundles: Seq<SkillBundle>, b: SkillBundle, p: int) -> (o: int)
    requires
        only_version_at(bundles, b, p),
    ensures
        0 <= o,
        o + b.skills@.len() <= all_installed(bundles).len(),
        forall|k: int| 0 <= k < b.skills@.len() ==> #[trigger] all_installed(bundles)[o + k] == (b, b.skills@[k]),
        forall|i: int| 0 <= i < all_installed(bundles).len() && !(o <= i < o + b.skills@.len())
            ==> (#[trigger] all_installed(bundles)[i]).0.name@ != b.name@,
    decreases bundles.len(),
{
    let d = bundles.drop_last();
    let a = all_installed(d);
    let last = bundles.last();
    let t = last.skills@.map_values(|it: SkillItem| (last, it));
    assert(all_installed(bundles) == a + t);
    assert(last == bundles[bundles.len() - 1]);
    if p == bundles.len() - 1 {
        assert forall|j: int| 0 <= j < d.len() implies (#[trigger] d[j]).name@ != b.name@ by {
            assert(d[j] == bundles[j]);
        }
        lemma_installed_names(d, b.name@);
        let o = a.len() as int;
        assert forall|k: int| 0 <= k < b.skills@.len() implies #[trigger] all_installed(bundles)[o + k] == (b, b.skills@[k]) by {
            assert(all_installed(bundles)[o + k] == t[k]);
        }
        o
    } else {
        assert(d[p] == bundles[p]);
        assert forall|j: int| 0 <= j < d.len() && j != p implies (#[trigger] d[j]).name@ != b.name@ by {
            assert(d[j] == bundles[j]);
        }
        let o = lemma_listed_block(d, b, p);
        assert forall|k: int| 0 <= k < b.skills@.len() implies #[trigger] all_installed(bundles)[o + k] == (b, b.skills@[k]) by {
            assert(all_installed(bundles)[o + k] == a[o + k]);
        }
        assert forall|i: int| 0 <= i < all_installed(bundles).len() && !(o <= i < o + b.skills@.len())
            implies (#[trigger] all_installed(bundles)[i]).0.name@ != b.name@ by {
            if i < a.len() {
                assert(all_installed(bundles)[i] == a[i]);
            } else {
                assert(all_installed(bundles)[i] == t[i - a.len()]);
            }
        }
        o
    }
}

/// `listing` holds the skills `v`, same fields and in order, from position
/// `o` on, and no other skill of `listing` carries the bundle name `name`.
pub open spec fn listed_at(listing: Seq<InstalledSkill>, v: Seq<InstalledSkill>, name: Seq<char>, o: int) -> bool {
    &&& 0 <= o && o + v.len() <= listing.len()
    &&& forall|k: int| 0 <= k < v.len() ==> same_skill(#[trigger] listing[o + k], v[k])
    &&& forall|i: int| 0 <= i < listing.len() && !(o <= i < o + v.len())
        ==> (#[trigger] listing[i]).bundle_name@ != name
}

/// Installing bundle `b`, whose plan gave the skills `v`, leaves `b` the one
/// stored bundle of its name, in whatever order the bundles are read.  Then
/// the listing of the stored bundles' skills (`listing`) holds exactly the
/// skills of `v`, same fields and in order, one after the other, and no
/// other listed skill carries `b`'s name.
pub proof fn law_installed_skills_are_listed(
    bundles: Seq<SkillBundle>,
    p: int,
    b: SkillBundle,
    v: Seq<InstalledSkill>,
    listing: Seq<InstalledSkill>,
)
    requires
        only_version_at(bundles, b, p),
        v.len() == b.skills@.len(),
        forall|i: int| 0 <= i < v.len() ==> installed_from(#[trigger] v[i], b, b.skills@[i]),
        listing.len() == all_installed(bundles).len(),
        forall|i: int| 0 <= i < listing.len() ==> installed_from(
            #[trigger] listing[i],
            all_installed(bundles)[i].0,
            all_installed(bundles)[i].1,
        ),
    ensures
        exists|o: int| #[trigger] listed_at(listing, v, b.name@, o),
{
    let o = lemma_listed_block(bundles, b, p);
    let listed = all_installed(bundles);
    assert forall|k: int| 0 <= k < v.len() implies same_skill(#[trigger] listing[o + k], v[k]) by {
        assert(listed[o + k] == (b, b.skills@[k]));
    }
    assert forall|i: int| 0 <= i < listing.len() && !(o <= i < o + v.len())
        implies (#[trigger] listing[i]).bundle_name@ != b.name@ by {
        assert(listed[i].0.name@ != b.name@);
    }
    assert(listed_at(listing, v, b.name@, o));
}

/// After an install, the stored bundles (kept in installation order) hold the
/// new bundle as the one bundle of its name.
pub proof fn law_install_keeps_one_version(stored: Seq<SkillBundle>, b: SkillBundle)
    ensures
        only_version_at(after_install(stored, b), b, after_install(stored, b).len() - 1),
{
    let others = stored.filter(other_bundle(b.name@));
    let after = after_install(stored, b);
    assert forall|j: int| 0 <= j < after.len() && j != after.len() - 1 implies (#[trigger] after[j]).name@ != b.name@ by {
        assert(after[j] == others[j]);
        stored.lemma_filter_pred(other_bundle(b.name@), j);
    }
}

} // verus!

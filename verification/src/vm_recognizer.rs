//! Which profile a VM has, and whether it takes part at all.

use vstd::prelude::*;
use crate::config::{profile_named, NamedProfile, Profile};
#[allow(unused_imports)]
use crate::config::{names_differ, position_named, profiles_view, ProfileView};
use crate::json::{Record, Scalar};
#[allow(unused_imports)]
use crate::json::{opt_record, text_at, ScalarView};
use crate::text::{contains, find, same, split_at_char, trim};
#[allow(unused_imports)]
use crate::text::{cut_at, filled, occurs_at, occurs_in, opt_string, opt_text, texts, trimmed};
use crate::vm_state::Limits;

verus! {

/// What `str::to_lowercase` makes of a text.
pub uninterp spec fn lowercase(s: Seq<char>) -> Seq<char>;

/// Calls `str::to_lowercase`: each character is replaced as the Unicode tables say, so that the
/// result depends on the text alone.
#[verifier::external_body]
fn to_lower(s: &str) -> (r: String)
    ensures
        r@ == lowercase(s@),
{
    s.to_lowercase()
}

/// The first position at which `needle` stands in `s`.
pub open spec fn first_at(s: Seq<char>, needle: Seq<char>) -> int {
    choose|i: int| occurs_at(s, needle, i) && forall|j: int| 0 <= j < i ==> !occurs_at(s, needle, j)
}

/// The ISO file that a text names: what stands between the first `iso/` and the next comma.
pub open spec fn iso_named(s: Seq<char>) -> Option<Seq<char>> {
    if occurs_in(s, "iso/"@) {
        Some(cut_at(s.skip(first_at(s, "iso/"@) + 4), ',')[0])
    } else {
        None
    }
}

/// The ISO file that a member of a configuration names.
pub open spec fn iso_of_scalar(v: ScalarView) -> Option<Seq<char>> {
    match v {
        ScalarView::Text(s) => iso_named(s),
        _ => None,
    }
}

/// The ISO file that the first member to name one names.
pub open spec fn iso_in(cfg: Seq<(Seq<char>, ScalarView)>) -> Option<Seq<char>>
    decreases cfg.len(),
{
    if cfg.len() == 0 {
        None
    } else {
        match iso_of_scalar(cfg[0].1) {
            Some(f) => Some(f),
            None => iso_in(cfg.drop_first()),
        }
    }
}

/// Finds the ISO file that a text names.
fn iso_of_text(s: &str) -> (r: Option<String>)
    ensures
        match r {
            Some(f) => iso_named(s@) == Some(f@),
            None => iso_named(s@) is None,
        },
{
    proof {
        reveal_strlit("iso/");
    }
    match find(s, "iso/") {
        Some(pos) => {
            assert(first_at(s@, "iso/"@) == pos) by {
                let k = first_at(s@, "iso/"@);
                if k < pos {
                    assert(!occurs_at(s@, "iso/"@, k));
                }
                if pos < k {
                    assert(!occurs_at(s@, "iso/"@, pos as int));
                }
            }
            let n: usize = s.unicode_len();
            let rest: &str = s.substring_char(pos + 4, n);
            assert(rest@ =~= s@.skip(pos + 4));
            let parts: Vec<String> = split_at_char(rest, ',');
            assert(texts(parts@)[0] == parts@[0]@);
            Some(parts[0].clone())
        },
        None => None,
    }
}

/// The name of the ISO file in a VM's configuration.
pub fn iso_filename(cfg: &Record) -> (r: Option<String>)
    ensures
        match r {
            Some(f) => iso_in(cfg@) == Some(f@),
            None => iso_in(cfg@) is None,
        },
{
    let mut i: usize = 0;
    assert(cfg@.skip(0) =~= cfg@);
    while i < cfg.members.len()
        invariant
            i <= cfg.members@.len(),
            iso_in(cfg@) == iso_in(cfg@.skip(i as int)),
        decreases cfg.members@.len() - i,
    {
        assert(cfg@.skip(i as int)[0] == cfg@[i as int]);
        assert(cfg@.skip(i as int).drop_first() =~= cfg@.skip(i + 1));
        match &cfg.members[i].value {
            Scalar::Text(s) => match iso_of_text(s.as_str()) {
                Some(f) => {
                    return Some(f);
                },
                None => {},
            },
            _ => {},
        }
        i = i + 1;
    }
    None
}

/// Trims a piece.
pub open spec fn trims() -> spec_fn(Seq<char>) -> Seq<char> {
    |p: Seq<char>| trimmed(p)
}

/// The tags of a VM, in order.
pub open spec fn tags_in(cfg: Seq<(Seq<char>, ScalarView)>) -> Seq<Seq<char>> {
    match text_at(cfg, "tags"@) {
        Some(t) => cut_at(t, ';').map_values(trims()).filter(filled()),
        None => Seq::empty(),
    }
}

/// The tags of a VM.
pub fn tags(cfg: &Record) -> (r: Vec<String>)
    requires
        cfg.wf(),
    ensures
        texts(r@) == tags_in(cfg@),
{
    let mut out: Vec<String> = Vec::new();
    match cfg.text("tags") {
        Some(t) => {
            let parts: Vec<String> = split_at_char(t, ';');
            let ghost model = cut_at(t@, ';').map_values(trims());
            let mut i: usize = 0;
            assert(model.take(0) =~= Seq::empty());
            assert(texts(out@) =~= model.take(0).filter(filled())) by {
                reveal(Seq::filter);
            }
            while i < parts.len()
                invariant
                    i <= parts@.len(),
                    texts(parts@) == cut_at(t@, ';'),
                    model == cut_at(t@, ';').map_values(trims()),
                    texts(out@) == model.take(i as int).filter(filled()),
                decreases parts@.len() - i,
            {
                assert(texts(parts@)[i as int] == parts@[i as int]@);
                let tag: &str = trim(parts[i].as_str());
                let ghost before = out@;
                assert(model[i as int] == tag@);
                assert(model.take(i + 1) =~= model.take(i as int).push(tag@));
                proof {
                    model.take(i as int).lemma_filter_push(tag@, filled());
                }
                if !tag.is_empty() {
                    out.push(tag.to_owned());
                    assert(texts(out@) =~= texts(before).push(tag@));
                }
                i = i + 1;
            }
            assert(model.take(i as int) =~= model);
        },
        None => {
            assert(texts(out@) =~= Seq::empty());
        },
    }
    out
}

/// A VM takes part only where it bears the tag `vcpu-agent`.
pub open spec fn opted_in(cfg: Seq<(Seq<char>, ScalarView)>) -> bool {
    tags_in(cfg).contains("vcpu-agent"@)
}

/// Tells whether a VM takes part.
pub fn takes_part(cfg: &Record) -> (r: bool)
    requires
        cfg.wf(),
    ensures
        r == opted_in(cfg@),
{
    let all: Vec<String> = tags(cfg);
    let mut i: usize = 0;
    while i < all.len()
        invariant
            i <= all@.len(),
            texts(all@) == tags_in(cfg@),
            forall|j: int| 0 <= j < i ==> (#[trigger] tags_in(cfg@)[j]) != "vcpu-agent"@,
        decreases all@.len() - i,
    {
        assert(texts(all@)[i as int] == all@[i as int]@);
        if same(all[i].as_str(), "vcpu-agent") {
            return true;
        }
        i = i + 1;
    }
    false
}

/// The name of the profile for an operating system.
pub open spec fn profile_name(ostype: Seq<char>) -> Seq<char> {
    if ostype == "win7"@ || ostype == "win8"@ || ostype == "win10"@ || ostype == "win11"@ || ostype
        == "wxp"@ || ostype == "w2k"@ || ostype == "w2k3"@ || ostype == "w2k8"@ || ostype
        == "wvista"@ {
        "windows"@
    } else {
        "linux"@
    }
}

/// The name of the profile for an operating system.
pub fn ostype_to_profile_name(ostype: &str) -> (r: &'static str)
    ensures
        r@ == profile_name(ostype@),
{
    if same(ostype, "win7") || same(ostype, "win8") || same(ostype, "win10") || same(
        ostype,
        "win11",
    ) || same(ostype, "wxp") || same(ostype, "w2k") || same(ostype, "w2k3") || same(ostype, "w2k8")
        || same(ostype, "wvista") {
        "windows"
    } else {
        "linux"
    }
}

/// A pattern that is empty finds nothing.
pub open spec fn found_at(text: Seq<char>, patterns: Seq<Option<Seq<char>>>, i: int) -> bool {
    &&& 0 <= i < patterns.len()
    &&& patterns[i] is Some
    &&& occurs_in(text, patterns[i]->0)
}

/// The first pattern that stands in a text.
pub open spec fn first_match(text: Seq<char>, patterns: Seq<Option<Seq<char>>>) -> Option<int> {
    if exists|i: int| found_at(text, patterns, i) {
        Some(
            choose|i: int|
                found_at(text, patterns, i) && forall|j: int|
                    0 <= j < i ==> !found_at(text, patterns, j),
        )
    } else {
        None
    }
}

/// The first pattern that stands in the first text to hold one.
pub open spec fn first_match_in(list: Seq<Seq<char>>, patterns: Seq<Option<Seq<char>>>) -> Option<int>
    decreases list.len(),
{
    if list.len() == 0 {
        None
    } else {
        match first_match(list[0], patterns) {
            Some(i) => Some(i),
            None => first_match_in(list.drop_first(), patterns),
        }
    }
}

/// What a list of patterns holds.
pub open spec fn patterns_view(v: Seq<Option<String>>) -> Seq<Option<Seq<char>>> {
    v.map_values(|p: Option<String>| opt_string(p))
}

/// Finds the first pattern that stands in a text.
pub fn matching(text: &str, patterns: &Vec<Option<String>>) -> (r: Option<usize>)
    ensures
        match r {
            Some(i) => i < patterns@.len() && first_match(text@, patterns_view(patterns@)) == Some(
                i as int,
            ),
            None => first_match(text@, patterns_view(patterns@)) is None,
        },
{
    let ghost model = patterns_view(patterns@);
    let mut i: usize = 0;
    while i < patterns.len()
        invariant
            i <= patterns@.len(),
            model == patterns_view(patterns@),
            forall|j: int| 0 <= j < i ==> !found_at(text@, model, j),
        decreases patterns@.len() - i,
    {
        assert(model[i as int] == opt_string(patterns@[i as int]));
        match &patterns[i] {
            Some(p) => {
                if contains(text, p.as_str()) {
                    assert(found_at(text@, model, i as int));
                    let ghost k = first_match(text@, model)->0;
                    assert(found_at(text@, model, k) && forall|j: int|
                        0 <= j < k ==> !found_at(text@, model, j));
                    assert(k == i);
                    return Some(i);
                }
            },
            None => {},
        }
        assert(!found_at(text@, model, i as int));
        i = i + 1;
    }
    None
}

/// By what the profile of a VM was found.
#[derive(Clone, Copy, Debug, PartialEq, Eq, Structural)]
pub enum Means {
    Iso,
    Tag,
    Ostype,
    Fallback,
}

/// A profile and by what it was found.
#[derive(Clone, Copy, Debug, PartialEq, Eq, Structural)]
pub struct Found {
    /// The position of the profile.
    pub index: usize,
    pub means: Means,
}

/// What an optional find holds.
pub open spec fn opt_found(f: Option<Found>) -> Option<(int, Means)> {
    match f {
        Some(x) => Some((x.index as int, x.means)),
        None => None,
    }
}

/// The profile of a VM: by its ISO first, else by its tags, else by its operating system, else
/// the one named `linux`.
pub open spec fn chosen(
    iso: Option<Seq<char>>,
    tag_list: Seq<Seq<char>>,
    ostype: Option<Seq<char>>,
    patterns: Seq<Option<Seq<char>>>,
    profiles: Seq<(Seq<char>, ProfileView)>,
) -> Option<(int, Means)> {
    if iso is Some && first_match(iso->0, patterns) is Some {
        Some((first_match(iso->0, patterns)->0, Means::Iso))
    } else if first_match_in(tag_list, patterns) is Some {
        Some((first_match_in(tag_list, patterns)->0, Means::Tag))
    } else if ostype is Some && position_named(profiles, profile_name(ostype->0)) is Some {
        Some((position_named(profiles, profile_name(ostype->0))->0, Means::Ostype))
    } else {
        match position_named(profiles, "linux"@) {
            Some(i) => Some((i, Means::Fallback)),
            None => None,
        }
    }
}

/// Chooses a profile; texts and patterns are in lower case, an empty pattern is absent.
pub fn choose_profile(
    iso: Option<&str>,
    tag_list: &Vec<String>,
    ostype: Option<&str>,
    patterns: &Vec<Option<String>>,
    profiles: &Vec<NamedProfile>,
) -> (r: Option<Found>)
    requires
        names_differ(profiles_view(profiles@)),
        patterns@.len() == profiles@.len(),
    ensures
        opt_found(r) == chosen(
            opt_text(iso),
            texts(tag_list@),
            opt_text(ostype),
            patterns_view(patterns@),
            profiles_view(profiles@),
        ),
        r is Some ==> r->0.index < profiles@.len(),
{
    match iso {
        Some(file) => match matching(file, patterns) {
            Some(index) => {
                return Some(Found { index, means: Means::Iso });
            },
            None => {},
        },
        None => {},
    }
    let ghost model = texts(tag_list@);
    let mut k: usize = 0;
    assert(model.skip(0) =~= model);
    while k < tag_list.len()
        invariant
            k <= tag_list@.len(),
            model == texts(tag_list@),
            patterns@.len() == profiles@.len(),
            !(iso is Some && first_match(iso->0@, patterns_view(patterns@)) is Some),
            first_match_in(model, patterns_view(patterns@)) == first_match_in(
                model.skip(k as int),
                patterns_view(patterns@),
            ),
        decreases tag_list@.len() - k,
    {
        assert(model.skip(k as int)[0] == tag_list@[k as int]@);
        assert(model.skip(k as int).drop_first() =~= model.skip(k + 1));
        match matching(tag_list[k].as_str(), patterns) {
            Some(index) => {
                return Some(Found { index, means: Means::Tag });
            },
            None => {},
        }
        k = k + 1;
    }
    match ostype {
        Some(os) => match profile_named(profiles, ostype_to_profile_name(os)) {
            Some(index) => {
                return Some(Found { index, means: Means::Ostype });
            },
            None => {},
        },
        None => {},
    }
    match profile_named(profiles, "linux") {
        Some(index) => Some(Found { index, means: Means::Fallback }),
        None => None,
    }
}

/// The patterns of a list of profiles, in lower case.
pub open spec fn lowered(profiles: Seq<(Seq<char>, ProfileView)>) -> Seq<Option<Seq<char>>> {
    profiles.map_values(
        |p: (Seq<char>, ProfileView)|
            if p.1.iso_pattern.len() == 0 {
                None
            } else {
                Some(lowercase(p.1.iso_pattern))
            },
    )
}

/// Lower case, where there is a text.
pub open spec fn opt_lowercase(s: Option<Seq<char>>) -> Option<Seq<char>> {
    match s {
        Some(t) => Some(lowercase(t)),
        None => None,
    }
}

/// Lower case, text by text.
pub open spec fn lowercases(v: Seq<Seq<char>>) -> Seq<Seq<char>> {
    v.map_values(|s: Seq<char>| lowercase(s))
}

/// The profile that a VM's configuration calls for, and by what.
pub open spec fn recognized(
    cfg: Seq<(Seq<char>, ScalarView)>,
    profiles: Seq<(Seq<char>, ProfileView)>,
) -> Option<(int, Means)> {
    chosen(
        opt_lowercase(iso_in(cfg)),
        lowercases(tags_in(cfg)),
        text_at(cfg, "ostype"@),
        lowered(profiles),
        profiles,
    )
}

/// The profile that a VM's configuration calls for.
pub open spec fn detected(
    cfg: Seq<(Seq<char>, ScalarView)>,
    profiles: Seq<(Seq<char>, ProfileView)>,
) -> Option<ProfileView> {
    match recognized(cfg, profiles) {
        Some(f) => Some(profiles[f.0].1),
        None => None,
    }
}

fn lowered_patterns(profiles: &Vec<NamedProfile>) -> (r: Vec<Option<String>>)
    ensures
        r@.len() == profiles@.len(),
        patterns_view(r@) == lowered(profiles_view(profiles@)),
{
    let mut out: Vec<Option<String>> = Vec::new();
    let mut i: usize = 0;
    while i < profiles.len()
        invariant
            i <= profiles@.len(),
            out@.len() == i,
            forall|j: int|
                0 <= j < i ==> opt_string(#[trigger] out@[j]) == lowered(
                    profiles_view(profiles@),
                )[j],
        decreases profiles@.len() - i,
    {
        let p: &str = profiles[i].profile.iso_pattern.as_str();
        if p.is_empty() {
            out.push(None);
        } else {
            out.push(Some(to_lower(p)));
        }
        i = i + 1;
    }
    assert(patterns_view(out@) =~= lowered(profiles_view(profiles@)));
    out
}

fn lowered_texts(list: &Vec<String>) -> (r: Vec<String>)
    ensures
        texts(r@) == lowercases(texts(list@)),
{
    let mut out: Vec<String> = Vec::new();
    let mut i: usize = 0;
    while i < list.len()
        invariant
            i <= list@.len(),
            out@.len() == i,
            forall|j: int| 0 <= j < i ==> (#[trigger] out@[j])@ == lowercase(list@[j]@),
        decreases list@.len() - i,
    {
        out.push(to_lower(list[i].as_str()));
        i = i + 1;
    }
    assert(texts(out@) =~= lowercases(texts(list@)));
    out
}

/// What an optional profile holds.
pub open spec fn opt_profile(p: Option<Profile>) -> Option<ProfileView> {
    match p {
        Some(x) => Some(x@),
        None => None,
    }
}

/// Finds the profile that a VM's configuration calls for, and by what.
pub fn recognize(cfg: &Record, profiles: &Vec<NamedProfile>) -> (r: Option<Found>)
    requires
        cfg.wf(),
        names_differ(profiles_view(profiles@)),
    ensures
        opt_found(r) == recognized(cfg@, profiles_view(profiles@)),
        r is Some ==> r->0.index < profiles@.len(),
{
    let patterns: Vec<Option<String>> = lowered_patterns(profiles);
    let tag_list: Vec<String> = lowered_texts(&tags(cfg));
    let ostype: Option<&str> = cfg.text("ostype");
    match iso_filename(cfg) {
        Some(f) => {
            let iso: String = to_lower(f.as_str());
            choose_profile(Some(iso.as_str()), &tag_list, ostype, &patterns, profiles)
        },
        None => choose_profile(None, &tag_list, ostype, &patterns, profiles),
    }
}

/// Detects the profile of a VM from its configuration.
pub fn detect_profile(cfg: &Record, profiles: &Vec<NamedProfile>) -> (r: Option<Profile>)
    requires
        cfg.wf(),
        names_differ(profiles_view(profiles@)),
    ensures
        opt_profile(r) == detected(cfg@, profiles_view(profiles@)),
        match recognized(cfg@, profiles_view(profiles@)) {
            Some(f) => 0 <= f.0 < profiles@.len() && r is Some && r->0@ == profiles@[f.0].profile@,
            None => r is None,
        },
{
    match recognize(cfg, profiles) {
        Some(f) => Some(profiles[f.index].profile.clone()),
        None => None,
    }
}

/// The profile of a VM that takes part; a VM that does not take part has none.
pub fn eligible_profile(cfg: &Record, profiles: &Vec<NamedProfile>) -> (r: Option<Profile>)
    requires
        cfg.wf(),
        names_differ(profiles_view(profiles@)),
    ensures
        opt_profile(r) == (if opted_in(cfg@) {
            detected(cfg@, profiles_view(profiles@))
        } else {
            None
        }),
        !opted_in(cfg@) ==> r is None,
        opted_in(cfg@) ==> match recognized(cfg@, profiles_view(profiles@)) {
            Some(f) => 0 <= f.0 < profiles@.len() && r is Some && r->0@ == profiles@[f.0].profile@,
            None => r is None,
        },
{
    if takes_part(cfg) {
        detect_profile(cfg, profiles)
    } else {
        None
    }
}

/// How a VM that runs stands to the balance.
#[derive(Clone, Copy, Debug, PartialEq, Eq, Structural)]
pub enum Standing {
    /// Its configuration could not be read.
    Unread,
    /// It does not bear the tag.
    OptedOut,
    /// It bears the tag, but no profile fits it.
    NoProfile,
    /// It takes part within these limits.
    Active { limits: Limits },
}

/// How a VM with such a configuration stands to the balance.
pub open spec fn standing_of(
    cfg: Option<Seq<(Seq<char>, ScalarView)>>,
    profiles: Seq<(Seq<char>, ProfileView)>,
) -> Standing {
    match cfg {
        None => Standing::Unread,
        Some(c) => if !opted_in(c) {
            Standing::OptedOut
        } else {
            match detected(c, profiles) {
                Some(p) => Standing::Active { limits: Limits { min: p.min, max: p.max } },
                None => Standing::NoProfile,
            }
        },
    }
}

/// Tells how a VM stands to the balance, from its configuration where it could be read.
pub fn standing(cfg: Option<&Record>, profiles: &Vec<NamedProfile>) -> (r: Standing)
    requires
        cfg is Some ==> cfg->0.wf(),
        names_differ(profiles_view(profiles@)),
    ensures
        r == standing_of(opt_record(cfg), profiles_view(profiles@)),
        cfg is None <==> r is Unread,
        cfg is Some && opted_in(cfg->0@) ==> match recognized(
            cfg->0@,
            profiles_view(profiles@),
        ) {
            Some(f) => r == (Standing::Active {
                limits: Limits {
                    min: profiles@[f.0].profile.min,
                    max: profiles@[f.0].profile.max,
                },
            }),
            None => r is NoProfile,
        },
{
    match cfg {
        None => Standing::Unread,
        Some(c) => match eligible_profile(c, profiles) {
            Some(p) => Standing::Active { limits: Limits { min: p.min, max: p.max } },
            None => {
                if takes_part(c) {
                    Standing::NoProfile
                } else {
                    Standing::OptedOut
                }
            },
        },
    }
}

/// Whatever the tags and the operating system say, a profile found by the ISO is taken.
pub proof fn law_iso_comes_first(
    iso: Seq<char>,
    tag_list: Seq<Seq<char>>,
    ostype: Option<Seq<char>>,
    patterns: Seq<Option<Seq<char>>>,
    profiles: Seq<(Seq<char>, ProfileView)>,
)
    requires
        first_match(iso, patterns) is Some,
    ensures
        chosen(Some(iso), tag_list, ostype, patterns, profiles) == Some(
            (first_match(iso, patterns)->0, Means::Iso),
        ),
{
}

/// Where no ISO matches, a profile found by a tag is taken, whatever the operating system.
pub proof fn law_tags_come_second(
    iso: Option<Seq<char>>,
    tag_list: Seq<Seq<char>>,
    ostype: Option<Seq<char>>,
    patterns: Seq<Option<Seq<char>>>,
    profiles: Seq<(Seq<char>, ProfileView)>,
)
    requires
        iso is Some ==> first_match(iso->0, patterns) is None,
        first_match_in(tag_list, patterns) is Some,
    ensures
        chosen(iso, tag_list, ostype, patterns, profiles) == Some(
            (first_match_in(tag_list, patterns)->0, Means::Tag),
        ),
{
}

/// With a profile named `linux` every VM has a profile.
pub proof fn law_linux_is_the_fallback(
    cfg: Seq<(Seq<char>, ScalarView)>,
    profiles: Seq<(Seq<char>, ProfileView)>,
)
    requires
        position_named(profiles, "linux"@) is Some,
    ensures
        detected(cfg, profiles) is Some,
{
}

} // verus!

//! What is read off a VM's configuration, told from the configuration itself.

use vstd::prelude::*;
#[allow(unused_imports)]
use crate::config::{names_differ, position_named, ProfileView};
#[allow(unused_imports)]
use crate::json::{count_at, has_member, keys_differ, record_in, text_at, Json, ScalarView};
#[allow(unused_imports)]
use crate::text::{
    cut_at, filled, lemma_first_piece, lemma_whole, occurs_at, occurs_in, trimmed,
};
#[allow(unused_imports)]
use crate::vm_recognizer::{
    detected, first_at, first_match, first_match_in, found_at, iso_in, iso_named, lowercase,
    lowercases, lowered, opted_in, profile_name, recognized, standing_of, tags_in, trims, Means,
    Standing,
};

verus! {

/// What stands under a key is found, as a text where it is one and as a count where it is one; under
/// a key that stands nowhere nothing is found.
pub proof fn law_members_are_found(r: Seq<(Seq<char>, ScalarView)>, key: Seq<char>, i: int)
    requires
        keys_differ(r),
        0 <= i < r.len() && r[i].0 == key || forall|j: int|
            0 <= j < r.len() ==> (#[trigger] r[j]).0 != key,
    ensures
        0 <= i < r.len() && r[i].0 == key ==> match r[i].1 {
            ScalarView::Text(s) => text_at(r, key) == Some(s) && count_at(r, key) is None,
            ScalarView::Count(n) => count_at(r, key) == Some(n) && text_at(r, key) is None,
            ScalarView::Other => text_at(r, key) is None && count_at(r, key) is None,
        },
        !(0 <= i < r.len() && r[i].0 == key) ==> text_at(r, key) is None && count_at(r, key) is None,
{
    if 0 <= i < r.len() && r[i].0 == key {
        assert forall|v: ScalarView| has_member(r, key, v) implies v == r[i].1 by {}
        match r[i].1 {
            ScalarView::Text(s) => {
                assert(r[i] == (key, ScalarView::Text(s)));
                assert(has_member(r, key, ScalarView::Text(s)));
            },
            ScalarView::Count(n) => {
                assert(r[i] == (key, ScalarView::Count(n)));
                assert(has_member(r, key, ScalarView::Count(n)));
            },
            ScalarView::Other => {},
        }
    } else {
        assert forall|v: ScalarView| !has_member(r, key, v) by {}
    }
}

/// An object is read member by member, in order and under the same keys: strings as texts, unsigned
/// integers as counts, anything else as neither. No other value has members.
pub proof fn law_objects_are_read_member_by_member(j: Json, i: int)
    ensures
        match j {
            Json::Object(m) => {
                &&& record_in(j).len() == m.len()
                &&& 0 <= i < m.len() ==> record_in(j)[i].0 == m[i].0 && (match m[i].1 {
                    Json::Text(s) => record_in(j)[i].1 == ScalarView::Text(s),
                    Json::Number(Some(n)) => record_in(j)[i].1 == ScalarView::Count(n),
                    _ => record_in(j)[i].1 is Other,
                })
            },
            _ => record_in(j).len() == 0,
        },
{
}

/// Where no name stands twice, a profile is found exactly under its name.
pub proof fn law_profiles_are_found_by_name(
    p: Seq<(Seq<char>, ProfileView)>,
    name: Seq<char>,
    i: int,
)
    requires
        names_differ(p),
    ensures
        position_named(p, name) == Some(i) <==> 0 <= i < p.len() && p[i].0 == name,
        position_named(p, name) is None <==> forall|j: int|
            0 <= j < p.len() ==> (#[trigger] p[j]).0 != name,
{
    if 0 <= i < p.len() && p[i].0 == name {
        let k = position_named(p, name)->0;
        assert(0 <= k < p.len() && p[k].0 == name);
    }
}

/// The ISO file of a text is what stands between the first `iso/` and the next comma, or the end.
pub proof fn law_iso_stands_behind_its_marker(
    head: Seq<char>,
    file: Seq<char>,
    tail: Seq<char>,
)
    requires
        forall|i: int| 0 <= i < head.len() ==> !occurs_at(head + "iso/"@, "iso/"@, i),
        !file.contains(','),
        tail == file || exists|rest: Seq<char>| tail == file + seq![','] + rest,
    ensures
        iso_named(head + "iso/"@ + tail) == Some(file),
{
    assert(cut_at(tail, ',')[0] == file) by {
        if tail == file {
            lemma_whole(file, ',');
        } else {
            let rest = choose|rest: Seq<char>| tail == file + seq![','] + rest;
            lemma_first_piece(file, ',', rest);
        }
    }
    lemma_iso(head, tail);
}

proof fn lemma_iso(head: Seq<char>, tail: Seq<char>)
    requires
        forall|i: int| 0 <= i < head.len() ==> !occurs_at(head + "iso/"@, "iso/"@, i),
    ensures
        iso_named(head + "iso/"@ + tail) == Some(cut_at(tail, ',')[0]),
{
    reveal_strlit("iso/");
    let s = head + "iso/"@ + tail;
    let n = head.len() as int;
    assert(s.subrange(n, n + 4) =~= "iso/"@);
    assert(occurs_at(s, "iso/"@, n));
    assert forall|i: int| 0 <= i < n implies !occurs_at(s, "iso/"@, i) by {
        if occurs_at(s, "iso/"@, i) {
            let t = head + "iso/"@;
            assert(t.subrange(i, i + 4) =~= s.subrange(i, i + 4));
            assert(occurs_at(t, "iso/"@, i));
        }
    }
    let k = first_at(s, "iso/"@);
    assert(occurs_at(s, "iso/"@, k) && forall|j: int| 0 <= j < k ==> !occurs_at(s, "iso/"@, j));
    assert(k == n);
    assert(s.skip(n + 4) =~= tail);
}

/// A text without `iso/` names no ISO file.
pub proof fn law_no_iso_without_its_marker(s: Seq<char>)
    ensures
        iso_named(s) is None <==> forall|i: int|
            0 <= i <= s.len() - 4 ==> #[trigger] s.subrange(i, i + 4) != "iso/"@,
{
    reveal_strlit("iso/");
    if occurs_in(s, "iso/"@) {
        let i = choose|i: int| occurs_at(s, "iso/"@, i);
        assert(s.subrange(i, i + 4) == "iso/"@);
    } else {
        assert forall|i: int| 0 <= i <= s.len() - 4 implies #[trigger] s.subrange(i, i + 4)
            != "iso/"@ by {
            assert(!occurs_at(s, "iso/"@, i));
        }
    }
}

/// The ISO file of a configuration is the one of its first member that is a text and names one.
pub proof fn law_first_iso_counts(cfg: Seq<(Seq<char>, ScalarView)>, k: int)
    requires
        0 <= k <= cfg.len(),
        forall|i: int|
            0 <= i < k ==> ((#[trigger] cfg[i]).1 matches ScalarView::Text(s) ==> iso_named(
                s,
            ) is None),
    ensures
        k == cfg.len() ==> iso_in(cfg) is None,
        k < cfg.len() ==> (cfg[k].1 matches ScalarView::Text(s) ==> (iso_named(s) is Some
            ==> iso_in(cfg) == iso_named(s))),
    decreases k,
{
    if k > 0 {
        let rest = cfg.drop_first();
        assert(cfg[0].1 matches ScalarView::Text(s) ==> iso_named(s) is None);
        assert forall|i: int| 0 <= i < k - 1 implies ((#[trigger] rest[i]).1 matches ScalarView::Text(
            s,
        ) ==> iso_named(s) is None) by {
            assert(rest[i] == cfg[i + 1]);
        }
        law_first_iso_counts(rest, k - 1);
        if k < cfg.len() {
            assert(rest[k - 1] == cfg[k]);
        }
    }
}

/// A VM takes part exactly where its tags are a text and one of the pieces between the semicolons
/// is, without the white space around it, `vcpu-agent`.
pub proof fn law_the_tag_decides(cfg: Seq<(Seq<char>, ScalarView)>)
    ensures
        opted_in(cfg) <==> {
            &&& text_at(cfg, "tags"@) is Some
            &&& exists|i: int|
                0 <= i < cut_at(text_at(cfg, "tags"@)->0, ';').len() && trimmed(
                    #[trigger] cut_at(text_at(cfg, "tags"@)->0, ';')[i],
                ) == "vcpu-agent"@
        },
{
    reveal_strlit("vcpu-agent");
    lemma_tags(cfg, "vcpu-agent"@);
}

proof fn lemma_tags(cfg: Seq<(Seq<char>, ScalarView)>, tag: Seq<char>)
    requires
        tag.len() > 0,
    ensures
        tags_in(cfg).contains(tag) <==> {
            &&& text_at(cfg, "tags"@) is Some
            &&& exists|i: int|
                0 <= i < cut_at(text_at(cfg, "tags"@)->0, ';').len() && trimmed(
                    #[trigger] cut_at(text_at(cfg, "tags"@)->0, ';')[i],
                ) == tag
        },
{
    if text_at(cfg, "tags"@) is Some {
        let parts = cut_at(text_at(cfg, "tags"@)->0, ';');
        let all = parts.map_values(trims());
        let kept = all.filter(filled());
        if kept.contains(tag) {
            all.lemma_filter_contains_rev(filled(), tag);
            let i = choose|i: int| 0 <= i < all.len() && all[i] == tag;
            assert(trimmed(parts[i]) == tag);
        }
        if exists|i: int| 0 <= i < parts.len() && trimmed(#[trigger] parts[i]) == tag {
            let i = choose|i: int| 0 <= i < parts.len() && trimmed(#[trigger] parts[i]) == tag;
            assert(all[i] == tag);
            all.lemma_filter_contains(filled(), i);
        }
    }
}

/// The profile named `windows` is for the releases of Windows, the one named `linux` for all else.
pub proof fn law_windows_or_linux(ostype: Seq<char>)
    ensures
        profile_name(ostype) == "windows"@ || profile_name(ostype) == "linux"@,
        profile_name(ostype) == "windows"@ <==> seq![
            "wxp"@,
            "w2k"@,
            "w2k3"@,
            "w2k8"@,
            "wvista"@,
            "win7"@,
            "win8"@,
            "win10"@,
            "win11"@,
        ].contains(ostype),
{
    reveal_strlit("windows");
    reveal_strlit("linux");
    let all = seq![
        "wxp"@,
        "w2k"@,
        "w2k3"@,
        "w2k8"@,
        "wvista"@,
        "win7"@,
        "win8"@,
        "win10"@,
        "win11"@,
    ];
    assert("windows"@.len() != "linux"@.len());
    assert(all[0] == "wxp"@ && all[1] == "w2k"@ && all[2] == "w2k3"@ && all[3] == "w2k8"@ && all[4]
        == "wvista"@ && all[5] == "win7"@ && all[6] == "win8"@ && all[7] == "win10"@ && all[8]
        == "win11"@);
}

/// The pattern that is found in a text is the first that stands in it; where none is found none
/// stands in it.
pub proof fn law_first_pattern_counts(text: Seq<char>, patterns: Seq<Option<Seq<char>>>, j: int)
    requires
        0 <= j < patterns.len(),
        patterns[j] is Some,
        occurs_in(text, patterns[j]->0),
    ensures
        first_match(text, patterns) matches Some(i) && 0 <= i <= j && patterns[i] is Some
            && occurs_in(text, patterns[i]->0),
{
    assert(found_at(text, patterns, j));
    lemma_first(text, patterns, j);
    let i = first_match(text, patterns)->0;
    assert(found_at(text, patterns, i) && forall|k: int|
        0 <= k < i ==> !found_at(text, patterns, k));
}

proof fn lemma_first(text: Seq<char>, patterns: Seq<Option<Seq<char>>>, j: int)
    requires
        found_at(text, patterns, j),
    ensures
        exists|i: int|
            i <= j && found_at(text, patterns, i) && forall|k: int|
                0 <= k < i ==> !found_at(text, patterns, k),
    decreases j,
{
    if exists|k: int| 0 <= k < j && found_at(text, patterns, k) {
        let k = choose|k: int| 0 <= k < j && found_at(text, patterns, k);
        lemma_first(text, patterns, k);
    }
}

/// A pattern is found only where it stands in the text.
pub proof fn law_found_patterns_stand_in_the_text(
    text: Seq<char>,
    patterns: Seq<Option<Seq<char>>>,
    i: int,
)
    requires
        first_match(text, patterns) == Some(i),
    ensures
        0 <= i < patterns.len(),
        patterns[i] is Some,
        occurs_in(text, patterns[i]->0),
{
    let j = choose|j: int| found_at(text, patterns, j);
    lemma_first(text, patterns, j);
}

/// Of several texts the first that holds a pattern decides.
pub proof fn law_first_text_counts(
    list: Seq<Seq<char>>,
    patterns: Seq<Option<Seq<char>>>,
    k: int,
)
    requires
        0 <= k <= list.len(),
        forall|i: int| 0 <= i < k ==> first_match(#[trigger] list[i], patterns) is None,
    ensures
        k == list.len() ==> first_match_in(list, patterns) is None,
        k < list.len() && first_match(list[k], patterns) is Some ==> first_match_in(list, patterns)
            == first_match(list[k], patterns),
    decreases k,
{
    if k > 0 {
        let rest = list.drop_first();
        assert(first_match(list[0], patterns) is None);
        assert forall|i: int| 0 <= i < k - 1 implies first_match(
            #[trigger] rest[i],
            patterns,
        ) is None by {
            assert(rest[i] == list[i + 1]);
        }
        law_first_text_counts(rest, patterns, k - 1);
        if k < list.len() {
            assert(rest[k - 1] == list[k]);
        }
    }
}

/// A profile whose pattern is not empty and stands in the name of the ISO file, whatever the case,
/// gives the VM a profile by the ISO: this one or an earlier one of which the same holds.
pub proof fn law_iso_gives_the_profile(
    cfg: Seq<(Seq<char>, ScalarView)>,
    profiles: Seq<(Seq<char>, ProfileView)>,
    j: int,
)
    requires
        iso_in(cfg) is Some,
        0 <= j < profiles.len(),
        profiles[j].1.iso_pattern.len() > 0,
        occurs_in(lowercase(iso_in(cfg)->0), lowercase(profiles[j].1.iso_pattern)),
    ensures
        ({
            &&& recognized(cfg, profiles) matches Some((i, means))
            &&& means is Iso
            &&& 0 <= i <= j
            &&& profiles[i].1.iso_pattern.len() > 0
            &&& occurs_in(lowercase(iso_in(cfg)->0), lowercase(profiles[i].1.iso_pattern))
        }),
{
    law_first_pattern_counts(lowercase(iso_in(cfg)->0), lowered(profiles), j);
}

/// Where the ISO gives no profile, a tag that holds a profile's pattern, whatever the case, gives the
/// VM a profile by its tags.
pub proof fn law_tags_give_the_profile(
    cfg: Seq<(Seq<char>, ScalarView)>,
    profiles: Seq<(Seq<char>, ProfileView)>,
    t: int,
    j: int,
)
    requires
        iso_in(cfg) is Some ==> forall|k: int|
            0 <= k < profiles.len() && (#[trigger] profiles[k]).1.iso_pattern.len() > 0
                ==> !occurs_in(lowercase(iso_in(cfg)->0), lowercase(profiles[k].1.iso_pattern)),
        0 <= t < tags_in(cfg).len(),
        0 <= j < profiles.len(),
        profiles[j].1.iso_pattern.len() > 0,
        occurs_in(lowercase(tags_in(cfg)[t]), lowercase(profiles[j].1.iso_pattern)),
        forall|u: int, k: int|
            0 <= u < t && 0 <= k < profiles.len() && profiles[k].1.iso_pattern.len() > 0
                ==> !occurs_in(
                lowercase(#[trigger] tags_in(cfg)[u]),
                lowercase((#[trigger] profiles[k]).1.iso_pattern),
            ),
    ensures
        ({
            &&& recognized(cfg, profiles) matches Some((i, means))
            &&& means is Tag
            &&& 0 <= i <= j
            &&& profiles[i].1.iso_pattern.len() > 0
            &&& occurs_in(lowercase(tags_in(cfg)[t]), lowercase(profiles[i].1.iso_pattern))
        }),
{
    let patterns = lowered(profiles);
    let list = lowercases(tags_in(cfg));
    if iso_in(cfg) is Some {
        lemma_no_match(lowercase(iso_in(cfg)->0), profiles);
    }
    assert forall|u: int| 0 <= u < t implies first_match(#[trigger] list[u], patterns) is None by {
        assert(list[u] == lowercase(tags_in(cfg)[u]));
        lemma_no_match(list[u], profiles);
    }
    assert(list[t] == lowercase(tags_in(cfg)[t]));
    law_first_pattern_counts(list[t], patterns, j);
    law_first_text_counts(list, patterns, t);
}

proof fn lemma_no_match(text: Seq<char>, profiles: Seq<(Seq<char>, ProfileView)>)
    requires
        forall|k: int|
            0 <= k < profiles.len() && (#[trigger] profiles[k]).1.iso_pattern.len() > 0
                ==> !occurs_in(text, lowercase(profiles[k].1.iso_pattern)),
    ensures
        first_match(text, lowered(profiles)) is None,
{
    assert forall|i: int| !found_at(text, lowered(profiles), i) by {
        if 0 <= i < profiles.len() {
            assert(profiles[i].1.iso_pattern.len() > 0 ==> !occurs_in(
                text,
                lowercase(profiles[i].1.iso_pattern),
            ));
        }
    }
}

/// Where neither the ISO nor a tag gives a profile, the operating system does where a profile has
/// the name for it; else the one named `linux` stands in; else there is none.
pub proof fn law_the_system_gives_the_profile(
    cfg: Seq<(Seq<char>, ScalarView)>,
    profiles: Seq<(Seq<char>, ProfileView)>,
    i: int,
)
    requires
        names_differ(profiles),
        iso_in(cfg) is Some ==> forall|k: int|
            0 <= k < profiles.len() && (#[trigger] profiles[k]).1.iso_pattern.len() > 0
                ==> !occurs_in(lowercase(iso_in(cfg)->0), lowercase(profiles[k].1.iso_pattern)),
        forall|u: int, k: int|
            0 <= u < tags_in(cfg).len() && 0 <= k < profiles.len()
                && profiles[k].1.iso_pattern.len() > 0 ==> !occurs_in(
                lowercase(#[trigger] tags_in(cfg)[u]),
                lowercase((#[trigger] profiles[k]).1.iso_pattern),
            ),
    ensures
        text_at(cfg, "ostype"@) is Some && 0 <= i < profiles.len() && profiles[i].0 == profile_name(
            text_at(cfg, "ostype"@)->0,
        ) ==> recognized(cfg, profiles) == Some((i, Means::Ostype)),
        (text_at(cfg, "ostype"@) is Some ==> forall|k: int|
            0 <= k < profiles.len() ==> (#[trigger] profiles[k]).0 != profile_name(
                text_at(cfg, "ostype"@)->0,
            )) && 0 <= i < profiles.len() && profiles[i].0 == "linux"@ ==> recognized(cfg, profiles)
            == Some((i, Means::Fallback)),
        (forall|k: int|
            0 <= k < profiles.len() ==> (#[trigger] profiles[k]).0 != "linux"@
                && profiles[k].0 != "windows"@) ==> recognized(cfg, profiles) is None,
{
    let patterns = lowered(profiles);
    let list = lowercases(tags_in(cfg));
    if iso_in(cfg) is Some {
        lemma_no_match(lowercase(iso_in(cfg)->0), profiles);
    }
    assert forall|u: int| 0 <= u < list.len() implies first_match(
        #[trigger] list[u],
        patterns,
    ) is None by {
        assert(list[u] == lowercase(tags_in(cfg)[u]));
        lemma_no_match(list[u], profiles);
    }
    law_first_text_counts(list, patterns, list.len() as int);
    law_profiles_are_found_by_name(profiles, "linux"@, i);
    if text_at(cfg, "ostype"@) is Some {
        law_profiles_are_found_by_name(profiles, profile_name(text_at(cfg, "ostype"@)->0), i);
        law_windows_or_linux(text_at(cfg, "ostype"@)->0);
    }
}

/// The profile of a VM is the one at the position that was recognized.
pub proof fn law_the_profile_is_the_one_recognized(
    cfg: Seq<(Seq<char>, ScalarView)>,
    profiles: Seq<(Seq<char>, ProfileView)>,
)
    ensures
        recognized(cfg, profiles) is Some ==> detected(cfg, profiles) == Some(
            profiles[(recognized(cfg, profiles)->0).0].1,
        ),
        recognized(cfg, profiles) is None ==> detected(cfg, profiles) is None,
{
}

/// A VM that bears the tag and has a profile takes part within exactly that profile's limits.
pub proof fn law_profiles_set_the_limits(
    cfg: Seq<(Seq<char>, ScalarView)>,
    profiles: Seq<(Seq<char>, ProfileView)>,
    position: int,
    means: Means,
)
    requires
        opted_in(cfg),
        recognized(cfg, profiles) == Some((position, means)),
    ensures
        ({
            &&& standing_of(Some(cfg), profiles) matches Standing::Active { limits }
            &&& limits.min == profiles[position].1.min
            &&& limits.max == profiles[position].1.max
        }),
{
}

/// A VM that bears the tag and has no profile, one that does not bear the tag, and one whose
/// configuration could not be read are told apart, and only they do not take part.
pub proof fn law_who_does_not_take_part(
    cfg: Seq<(Seq<char>, ScalarView)>,
    profiles: Seq<(Seq<char>, ProfileView)>,
)
    ensures
        standing_of(None, profiles) is Unread,
        !opted_in(cfg) ==> standing_of(Some(cfg), profiles) is OptedOut,
        opted_in(cfg) && recognized(cfg, profiles) is None ==> standing_of(
            Some(cfg),
            profiles,
        ) is NoProfile,
{
}

/// The tags of a VM come in the order in which they stand between the semicolons, each without the
/// white space around it; where nothing stands there is no tag.
pub proof fn law_tags_come_in_order(
    cfg: Seq<(Seq<char>, ScalarView)>,
    other: Seq<(Seq<char>, ScalarView)>,
    first: Seq<char>,
    rest: Seq<char>,
)
    requires
        !first.contains(';'),
        text_at(cfg, "tags"@) == Some(first + seq![';'] + rest),
        text_at(other, "tags"@) == Some(rest),
    ensures
        trimmed(first).len() > 0 ==> tags_in(cfg) == seq![trimmed(first)] + tags_in(other),
        trimmed(first).len() == 0 ==> tags_in(cfg) == tags_in(other),
{
    lemma_first_piece(first, ';', rest);
    let parts = cut_at(rest, ';');
    let all = cut_at(first + seq![';'] + rest, ';').map_values(trims());
    let one = seq![trimmed(first)];
    let tail = parts.map_values(trims());
    assert(all =~= one + tail);
    Seq::filter_distributes_over_add(one, tail, filled());
    assert(one =~= Seq::<Seq<char>>::empty().push(trimmed(first)));
    Seq::<Seq<char>>::empty().lemma_filter_push(trimmed(first), filled());
    assert(Seq::<Seq<char>>::empty().filter(filled()) =~= Seq::empty()) by {
        reveal(Seq::filter);
    }
    if trimmed(first).len() > 0 {
        assert(one.filter(filled()) =~= one);
    } else {
        assert(one.filter(filled()) =~= Seq::empty());
        assert(Seq::<Seq<char>>::empty() + tail.filter(filled()) =~= tail.filter(filled()));
    }
}

/// A text without a semicolon is one tag, or none where nothing but white space stands in it; a VM
/// without such a text has no tags.
pub proof fn law_a_tag_may_stand_alone(cfg: Seq<(Seq<char>, ScalarView)>, tag: Seq<char>)
    requires
        !tag.contains(';'),
    ensures
        text_at(cfg, "tags"@) == Some(tag) && trimmed(tag).len() > 0 ==> tags_in(cfg) == seq![
            trimmed(tag),
        ],
        text_at(cfg, "tags"@) == Some(tag) && trimmed(tag).len() == 0 ==> tags_in(cfg).len() == 0,
        text_at(cfg, "tags"@) is None ==> tags_in(cfg).len() == 0,
{
    if text_at(cfg, "tags"@) == Some(tag) {
        lemma_whole(tag, ';');
        let all = cut_at(tag, ';').map_values(trims());
        assert(all =~= Seq::<Seq<char>>::empty().push(trimmed(tag)));
        Seq::<Seq<char>>::empty().lemma_filter_push(trimmed(tag), filled());
        assert(Seq::<Seq<char>>::empty().filter(filled()) =~= Seq::empty()) by {
            reveal(Seq::filter);
        }
        if trimmed(tag).len() > 0 {
            assert(tags_in(cfg) =~= seq![trimmed(tag)]);
        }
    }
}

} // verus!

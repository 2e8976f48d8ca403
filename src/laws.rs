//! Properties of how a configuration table becomes the converter's arguments, for every table.
use vstd::prelude::*;

use crate::bibliography::bibliography_gate;
use crate::config::{lookup, lookup_str, ConfigEntry, ConfigValue};
use crate::error::PandocError;
use crate::flags::{from_fragments, to_fragments};
use crate::pandoc::{command_args_of, plan_of};
use crate::settings::{
    all_features, feature_name, invalid_setting, lemma_feature_listed, lemma_mentioned_pair,
    lemma_resolve_failure, lemma_resolved_pairs, lemma_setting_in, resolve_features, setting_in,
    setting_of, Feature, PandocSetting,
};

verus! {

/// Two one-character prefixes followed by names: equal only with equal names.
proof fn lemma_signed_names(p: Seq<char>, q: Seq<char>, a: Seq<char>, b: Seq<char>)
    requires
        p.len() == 1,
        q.len() == 1,
        p + a == q + b,
    ensures
        a == b,
        p == q,
{
    assert((p + a).subrange(1, (p + a).len() as int) =~= a);
    assert((q + b).subrange(1, (q + b).len() as int) =~= b);
    assert((p + a).subrange(0, 1) =~= p);
    assert((q + b).subrange(0, 1) =~= q);
}

/// A feature that the table does not mention adds no fragment to either
/// format argument.
pub proof fn lemma_unmentioned_feature_adds_nothing(entries: Seq<ConfigEntry>, f: Feature)
    requires
        lookup(entries, feature_name(f)) is None,
        resolve_features(entries, all_features()) is Ok,
    ensures
        ({
            let s = resolve_features(entries, all_features())->Ok_0;
            &&& !from_fragments(s).contains("+"@ + feature_name(f))
            &&& !to_fragments(s).contains("+"@ + feature_name(f))
            &&& !to_fragments(s).contains("-"@ + feature_name(f))
        }),
{
    reveal_strlit("+");
    reveal_strlit("-");
    let s = resolve_features(entries, all_features())->Ok_0;
    lemma_resolved_pairs(entries, all_features());
    assert forall|i: int|
        #![trigger from_fragments(s)[i]]
        #![trigger to_fragments(s)[i]]
        0 <= i < s.len() implies {
        &&& from_fragments(s)[i] != "+"@ + feature_name(f)
        &&& to_fragments(s)[i] != "+"@ + feature_name(f)
        &&& to_fragments(s)[i] != "-"@ + feature_name(f)
    } by {
        let g = s[i].0;
        assert(lookup(entries, feature_name(g)) is Some);
        let sign = match s[i].1 {
            PandocSetting::Preserve => "+"@,
            PandocSetting::Transpile => "-"@,
        };
        if from_fragments(s)[i] == "+"@ + feature_name(f) {
            lemma_signed_names("+"@, "+"@, feature_name(g), feature_name(f));
        }
        if to_fragments(s)[i] == "+"@ + feature_name(f) {
            lemma_signed_names(sign, "+"@, feature_name(g), feature_name(f));
        }
        if to_fragments(s)[i] == "-"@ + feature_name(f) {
            lemma_signed_names(sign, "-"@, feature_name(g), feature_name(f));
        }
    }
}

/// A mentioned feature is always read (`+name` in the input format); it is
/// kept on output (`+name`) exactly when preserved and switched off
/// (`-name`) exactly when transpiled.
pub proof fn lemma_mentioned_feature_fragments(entries: Seq<ConfigEntry>, f: Feature)
    requires
        lookup(entries, feature_name(f)) is Some,
        resolve_features(entries, all_features()) is Ok,
    ensures
        ({
            let s = resolve_features(entries, all_features())->Ok_0;
            let m = setting_of(lookup(entries, feature_name(f))->Some_0);
            &&& m is Some
            &&& from_fragments(s).contains("+"@ + feature_name(f))
            &&& to_fragments(s).contains("+"@ + feature_name(f)) <==> m == Some(
                PandocSetting::Preserve,
            )
            &&& to_fragments(s).contains("-"@ + feature_name(f)) <==> m == Some(
                PandocSetting::Transpile,
            )
        }),
{
    reveal_strlit("+");
    reveal_strlit("-");
    let s = resolve_features(entries, all_features())->Ok_0;
    let v = lookup(entries, feature_name(f))->Some_0;
    lemma_feature_listed(f);
    lemma_mentioned_pair(entries, all_features(), f);
    lemma_resolved_pairs(entries, all_features());
    let m = setting_of(v)->Some_0;
    let i = choose|i: int| 0 <= i < s.len() && #[trigger] s[i] == (f, m);
    assert(from_fragments(s)[i] == "+"@ + feature_name(f));
    assert(to_fragments(s)[i] == match m {
        PandocSetting::Preserve => "+"@ + feature_name(f),
        PandocSetting::Transpile => "-"@ + feature_name(f),
    });
    assert("+"@ != "-"@) by {
        assert("+"@[0] != "-"@[0]);
    }
    if to_fragments(s).contains("+"@ + feature_name(f)) {
        let k = choose|k: int| 0 <= k < to_fragments(s).len() && to_fragments(s)[k] == "+"@
            + feature_name(f);
        let g = s[k].0;
        let sign = match s[k].1 {
            PandocSetting::Preserve => "+"@,
            PandocSetting::Transpile => "-"@,
        };
        assert(to_fragments(s)[k] == sign + feature_name(g));
        lemma_signed_names(sign, "+"@, feature_name(g), feature_name(f));
        assert(setting_of(lookup(entries, feature_name(g))->Some_0) == Some(s[k].1));
    }
    if to_fragments(s).contains("-"@ + feature_name(f)) {
        let k = choose|k: int| 0 <= k < to_fragments(s).len() && to_fragments(s)[k] == "-"@
            + feature_name(f);
        let g = s[k].0;
        let sign = match s[k].1 {
            PandocSetting::Preserve => "+"@,
            PandocSetting::Transpile => "-"@,
        };
        assert(to_fragments(s)[k] == sign + feature_name(g));
        lemma_signed_names(sign, "-"@, feature_name(g), feature_name(f));
        assert(setting_of(lookup(entries, feature_name(g))->Some_0) == Some(s[k].1));
    }
}

/// A feature set to a string other than "transpile" or "preserve" makes the
/// run fail with an error that names a rejected feature: that feature itself
/// when no other value is rejected.
pub proof fn lemma_rejected_value_fails(entries: Seq<ConfigEntry>, f: Feature)
    requires
        invalid_setting(entries, f),
    ensures
        exists|g: Feature|
            invalid_setting(entries, g) && #[trigger] plan_of(Some(entries)) == Err::<
                (Seq<char>, Seq<char>, Option<(Seq<char>, Seq<char>)>),
                PandocError,
            >(PandocError::InvalidFeatureValue(g)),
        (forall|g: Feature| g != f ==> !invalid_setting(entries, g)) ==> plan_of(Some(entries))
            == Err::<(Seq<char>, Seq<char>, Option<(Seq<char>, Seq<char>)>), PandocError>(
            PandocError::InvalidFeatureValue(f),
        ),
{
    lemma_feature_listed(f);
    let k = choose|k: int| 0 <= k < all_features().len() && all_features()[k] == f;
    assert(invalid_setting(entries, all_features()[k]));
    lemma_resolve_failure(entries, all_features());
    let j = choose|j: int|
        0 <= j < all_features().len() && invalid_setting(entries, #[trigger] all_features()[j])
            && resolve_features(entries, all_features()) == Err::<
            Seq<(Feature, PandocSetting)>,
            PandocError,
        >(PandocError::InvalidFeatureValue(all_features()[j]));
    assert(plan_of(Some(entries)) == Err::<
        (Seq<char>, Seq<char>, Option<(Seq<char>, Seq<char>)>),
        PandocError,
    >(PandocError::InvalidFeatureValue(all_features()[j])));
}

/// The mode that the settings table gives citations is the one its value
/// asks for.
proof fn lemma_citations_setting(entries: Seq<ConfigEntry>)
    requires
        resolve_features(entries, all_features()) is Ok,
    ensures
        ({
            let s = resolve_features(entries, all_features())->Ok_0;
            match lookup(entries, feature_name(Feature::Citations)) {
                Some(v) => setting_in(s, Feature::Citations) == setting_of(v),
                None => setting_in(s, Feature::Citations) is None,
            }
        }),
{
    let s = resolve_features(entries, all_features())->Ok_0;
    lemma_resolved_pairs(entries, all_features());
    lemma_setting_in(s, Feature::Citations);
    if lookup(entries, feature_name(Feature::Citations)) is Some {
        lemma_feature_listed(Feature::Citations);
        lemma_mentioned_pair(entries, all_features(), Feature::Citations);
    }
    if setting_in(s, Feature::Citations) is Some {
        let k = choose|k: int|
            0 <= k < s.len() && #[trigger] s[k] == (
                Feature::Citations,
                setting_in(s, Feature::Citations)->Some_0,
            );
        assert(lookup(entries, feature_name(s[k].0)) is Some);
    }
}

/// With citations transpiled, a bibliography without a style, or a style
/// without a bibliography, fails the run; with both, the plan holds the two
/// strings as given.
pub proof fn lemma_transpiled_citations_bibliography(entries: Seq<ConfigEntry>)
    requires
        lookup(entries, feature_name(Feature::Citations)) matches Some(v) && setting_of(v) == Some(
            PandocSetting::Transpile,
        ),
        resolve_features(entries, all_features()) is Ok,
    ensures
        (lookup_str(entries, "bibliography"@) is Some) != (lookup_str(
            entries,
            "bibliography-style"@,
        ) is Some) ==> plan_of(Some(entries)) == Err::<
            (Seq<char>, Seq<char>, Option<(Seq<char>, Seq<char>)>),
            PandocError,
        >(PandocError::IncompleteBibliography),
        lookup_str(entries, "bibliography"@) is Some && lookup_str(entries, "bibliography-style"@) is Some
            ==> plan_of(Some(entries)) is Ok && plan_of(Some(entries))->Ok_0.2 == Some(
            (
                lookup_str(entries, "bibliography"@)->Some_0,
                lookup_str(entries, "bibliography-style"@)->Some_0,
            ),
        ),
{
    lemma_citations_setting(entries);
}

/// Unless citations are transpiled, no bibliography is used and the
/// converter gets no citation arguments, whatever else the table holds.
pub proof fn lemma_kept_citations_use_no_bibliography(entries: Seq<ConfigEntry>)
    requires
        !(lookup(entries, feature_name(Feature::Citations)) matches Some(v) && setting_of(v) == Some(
            PandocSetting::Transpile,
        )),
        resolve_features(entries, all_features()) is Ok,
    ensures
        plan_of(Some(entries)) is Ok,
        plan_of(Some(entries))->Ok_0.2 is None,
        ({
            let p = plan_of(Some(entries))->Ok_0;
            command_args_of(p.0, p.1, p.2) == seq![p.0, p.1]
        }),
{
    lemma_citations_setting(entries);
    let s = resolve_features(entries, all_features())->Ok_0;
    assert(bibliography_gate(s, entries) == Ok::<
        Option<(Seq<char>, Seq<char>)>,
        PandocError,
    >(None));
}

} // verus!

//! Feature names, their modes, and the settings table built from the raw
//! configuration.
use vstd::prelude::*;

use crate::config::{lookup, ConfigTable, ConfigValue};
use crate::error::PandocError;

verus! {

/// A markdown extension that the configuration can switch.
#[derive(Debug, Clone, Copy, PartialEq, Eq, Structural)]
pub enum Feature {
    BacktickCodeBlocks,
    BracketedSpans,
    Citations,
    DefinitionLists,
    Emoji,
    FencedCodeAttributes,
    FencedCodeBlocks,
    FencedDivs,
    Footnotes,
    HardLineBreaks,
    InlineNotes,
    Mark,
    MarkdownInHtmlBlocks,
    LinkAttributes,
}

/// The configuration key of a feature, which is also pandoc's extension name.
pub open spec fn feature_name(f: Feature) -> Seq<char> {
    match f {
        Feature::BacktickCodeBlocks => "backtick_code_blocks"@,
        Feature::BracketedSpans => "bracketed_spans"@,
        Feature::Citations => "citations"@,
        Feature::DefinitionLists => "definition_lists"@,
        Feature::Emoji => "emoji"@,
        Feature::FencedCodeAttributes => "fenced_code_attributes"@,
        Feature::FencedCodeBlocks => "fenced_code_blocks"@,
        Feature::FencedDivs => "fenced_divs"@,
        Feature::Footnotes => "footnotes"@,
        Feature::HardLineBreaks => "hard_line_breaks"@,
        Feature::InlineNotes => "inline_notes"@,
        Feature::Mark => "mark"@,
        Feature::MarkdownInHtmlBlocks => "markdown_in_html_blocks"@,
        Feature::LinkAttributes => "link_attributes"@,
    }
}

/// Every feature, in the order in which the configuration is read.
pub open spec fn all_features() -> Seq<Feature> {
    seq![
        Feature::BacktickCodeBlocks,
        Feature::BracketedSpans,
        Feature::Citations,
        Feature::DefinitionLists,
        Feature::Emoji,
        Feature::FencedCodeAttributes,
        Feature::FencedCodeBlocks,
        Feature::FencedDivs,
        Feature::Footnotes,
        Feature::HardLineBreaks,
        Feature::InlineNotes,
        Feature::Mark,
        Feature::MarkdownInHtmlBlocks,
        Feature::LinkAttributes,
    ]
}

impl Feature {
    /// The configuration key of this feature.
    pub fn name(&self) -> (r: &'static str)
        ensures
            r@ == feature_name(*self),
    {
        match self {
            Feature::BacktickCodeBlocks => "backtick_code_blocks",
            Feature::BracketedSpans => "bracketed_spans",
            Feature::Citations => "citations",
            Feature::DefinitionLists => "definition_lists",
            Feature::Emoji => "emoji",
            Feature::FencedCodeAttributes => "fenced_code_attributes",
            Feature::FencedCodeBlocks => "fenced_code_blocks",
            Feature::FencedDivs => "fenced_divs",
            Feature::Footnotes => "footnotes",
            Feature::HardLineBreaks => "hard_line_breaks",
            Feature::InlineNotes => "inline_notes",
            Feature::Mark => "mark",
            Feature::MarkdownInHtmlBlocks => "markdown_in_html_blocks",
            Feature::LinkAttributes => "link_attributes",
        }
    }

    /// Every feature, in the order in which the configuration is read.
    pub fn all() -> (r: Vec<Feature>)
        ensures
            r@ == all_features(),
    {
        let r = vec![
            Feature::BacktickCodeBlocks,
            Feature::BracketedSpans,
            Feature::Citations,
            Feature::DefinitionLists,
            Feature::Emoji,
            Feature::FencedCodeAttributes,
            Feature::FencedCodeBlocks,
            Feature::FencedDivs,
            Feature::Footnotes,
            Feature::HardLineBreaks,
            Feature::InlineNotes,
            Feature::Mark,
            Feature::MarkdownInHtmlBlocks,
            Feature::LinkAttributes,
        ];
        assert(r@ =~= all_features());
        r
    }
}

/// What happens to a feature's syntax on output.
#[derive(Debug, Clone, Copy, PartialEq, Eq, Structural)]
pub enum PandocSetting {
    /// The extension is read and written again as it was.
    Preserve,
    /// The extension is read and turned into plain markup on output.
    Transpile,
}

impl Default for PandocSetting {
    fn default() -> (r: Self)
        ensures
            r == PandocSetting::Preserve,
    {
        PandocSetting::Preserve
    }
}

/// The mode that a configured value asks for; `None` for a string that is
/// neither "transpile" nor "preserve".
pub open spec fn setting_of(v: ConfigValue) -> Option<PandocSetting> {
    match v {
        ConfigValue::Str(s) => if s@ == "transpile"@ {
            Some(PandocSetting::Transpile)
        } else if s@ == "preserve"@ {
            Some(PandocSetting::Preserve)
        } else {
            None
        },
        ConfigValue::Other => Some(PandocSetting::Preserve),
    }
}

/// Whether the configuration sets `f` to a value that is rejected.
pub open spec fn invalid_setting(entries: Seq<crate::config::ConfigEntry>, f: Feature) -> bool {
    match lookup(entries, feature_name(f)) {
        Some(v) => setting_of(v) is None,
        None => false,
    }
}

/// The settings table for the features `fs`, read in order: one pair for each
/// feature that the configuration mentions; the first rejected value fails.
pub open spec fn resolve_features(
    entries: Seq<crate::config::ConfigEntry>,
    fs: Seq<Feature>,
) -> Result<Seq<(Feature, PandocSetting)>, PandocError>
    decreases fs.len(),
{
    if fs.len() == 0 {
        Ok(Seq::empty())
    } else {
        match resolve_features(entries, fs.drop_last()) {
            Err(e) => Err(e),
            Ok(s) => match lookup(entries, feature_name(fs.last())) {
                None => Ok(s),
                Some(v) => match setting_of(v) {
                    Some(m) => Ok(s.push((fs.last(), m))),
                    None => Err(PandocError::InvalidFeatureValue(fs.last())),
                },
            },
        }
    }
}

/// Once a prefix of the features fails, the whole list fails the same way.
proof fn lemma_failure_persists(
    entries: Seq<crate::config::ConfigEntry>,
    fs: Seq<Feature>,
    k: int,
    e: PandocError,
)
    requires
        0 <= k <= fs.len(),
        resolve_features(entries, fs.take(k)) == Err::<Seq<(Feature, PandocSetting)>, PandocError>(e),
    ensures
        resolve_features(entries, fs) == Err::<Seq<(Feature, PandocSetting)>, PandocError>(e),
    decreases fs.len(),
{
    if k == fs.len() {
        assert(fs.take(k) =~= fs);
    } else {
        assert(fs.drop_last().take(k) =~= fs.take(k));
        lemma_failure_persists(entries, fs.drop_last(), k, e);
    }
}

/// Each pair of a resolved table is a mentioned feature with the mode that
/// its value asks for.
pub proof fn lemma_resolved_pairs(entries: Seq<crate::config::ConfigEntry>, fs: Seq<Feature>)
    requires
        resolve_features(entries, fs) is Ok,
    ensures
        forall|i: int|
            0 <= i < resolve_features(entries, fs)->Ok_0.len() ==> {
                let p = #[trigger] resolve_features(entries, fs)->Ok_0[i];
                &&& lookup(entries, feature_name(p.0)) is Some
                &&& setting_of(lookup(entries, feature_name(p.0))->Some_0) == Some(p.1)
            },
    decreases fs.len(),
{
    if fs.len() > 0 {
        lemma_resolved_pairs(entries, fs.drop_last());
    }
}

/// A mentioned feature of the list has its pair in the resolved table.
pub proof fn lemma_mentioned_pair(
    entries: Seq<crate::config::ConfigEntry>,
    fs: Seq<Feature>,
    f: Feature,
)
    requires
        resolve_features(entries, fs) is Ok,
        fs.contains(f),
        lookup(entries, feature_name(f)) is Some,
    ensures
        setting_of(lookup(entries, feature_name(f))->Some_0) is Some,
        exists|i: int|
            0 <= i < resolve_features(entries, fs)->Ok_0.len()
                && #[trigger] resolve_features(entries, fs)->Ok_0[i] == (
                f,
                setting_of(lookup(entries, feature_name(f))->Some_0)->Some_0,
            ),
    decreases fs.len(),
{
    let s = resolve_features(entries, fs)->Ok_0;
    if fs.last() == f {
        let r = resolve_features(entries, fs.drop_last())->Ok_0;
        assert(s[r.len() as int] == s.last());
    } else {
        let k = choose|k: int| 0 <= k < fs.len() && fs[k] == f;
        assert(fs.drop_last()[k] == f);
        lemma_mentioned_pair(entries, fs.drop_last(), f);
        let r = resolve_features(entries, fs.drop_last())->Ok_0;
        let i = choose|i: int|
            0 <= i < r.len() && #[trigger] r[i] == (
                f,
                setting_of(lookup(entries, feature_name(f))->Some_0)->Some_0,
            );
        assert(s[i] == r[i]);
    }
}

/// A resolved list fails exactly when some feature's value is rejected, and
/// then names such a feature.
pub proof fn lemma_resolve_failure(entries: Seq<crate::config::ConfigEntry>, fs: Seq<Feature>)
    ensures
        (resolve_features(entries, fs) is Err) <==> exists|j: int|
            0 <= j < fs.len() && invalid_setting(entries, #[trigger] fs[j]),
        resolve_features(entries, fs) is Err ==> exists|j: int|
            0 <= j < fs.len() && invalid_setting(entries, #[trigger] fs[j])
                && resolve_features(entries, fs) == Err::<
                Seq<(Feature, PandocSetting)>,
                PandocError,
            >(PandocError::InvalidFeatureValue(fs[j])),
    decreases fs.len(),
{
    if fs.len() > 0 {
        let init = fs.drop_last();
        lemma_resolve_failure(entries, init);
        if exists|j: int| 0 <= j < init.len() && invalid_setting(entries, #[trigger] init[j]) {
            let j = choose|j: int|
                0 <= j < init.len() && invalid_setting(entries, #[trigger] init[j])
                    && resolve_features(entries, init) == Err::<
                    Seq<(Feature, PandocSetting)>,
                    PandocError,
                >(PandocError::InvalidFeatureValue(init[j]));
            assert(fs[j] == init[j]);
        } else {
            if invalid_setting(entries, fs.last()) {
                assert(fs[fs.len() - 1] == fs.last());
            } else {
                assert forall|j: int| 0 <= j < fs.len() implies !invalid_setting(
                    entries,
                    #[trigger] fs[j],
                ) by {
                    if j < fs.len() - 1 {
                        assert(fs[j] == init[j]);
                    }
                }
            }
        }
    }
}

/// Every feature is in the fixed list.
pub proof fn lemma_feature_listed(f: Feature)
    ensures
        all_features().contains(f),
{
    let a = all_features();
    match f {
        Feature::BacktickCodeBlocks => assert(a[0] == f),
        Feature::BracketedSpans => assert(a[1] == f),
        Feature::Citations => assert(a[2] == f),
        Feature::DefinitionLists => assert(a[3] == f),
        Feature::Emoji => assert(a[4] == f),
        Feature::FencedCodeAttributes => assert(a[5] == f),
        Feature::FencedCodeBlocks => assert(a[6] == f),
        Feature::FencedDivs => assert(a[7] == f),
        Feature::Footnotes => assert(a[8] == f),
        Feature::HardLineBreaks => assert(a[9] == f),
        Feature::InlineNotes => assert(a[10] == f),
        Feature::Mark => assert(a[11] == f),
        Feature::MarkdownInHtmlBlocks => assert(a[12] == f),
        Feature::LinkAttributes => assert(a[13] == f),
    }
}

/// `setting_in` finds a pair of the table, and finds one whenever the
/// feature has a pair.
pub proof fn lemma_setting_in(s: Seq<(Feature, PandocSetting)>, f: Feature)
    ensures
        setting_in(s, f) is Some ==> exists|k: int|
            0 <= k < s.len() && #[trigger] s[k] == (f, setting_in(s, f)->Some_0),
        (exists|k: int| 0 <= k < s.len() && (#[trigger] s[k]).0 == f) ==> setting_in(s, f) is Some,
    decreases s.len(),
{
    if s.len() > 0 {
        let t = s.drop_first();
        lemma_setting_in(t, f);
        if s[0].0 != f {
            if setting_in(s, f) is Some {
                let k = choose|k: int| 0 <= k < t.len() && #[trigger] t[k] == (f, setting_in(t, f)->Some_0);
                assert(s[k + 1] == t[k]);
            }
            if exists|k: int| 0 <= k < s.len() && (#[trigger] s[k]).0 == f {
                let k = choose|k: int| 0 <= k < s.len() && (#[trigger] s[k]).0 == f;
                assert(t[k - 1] == s[k]);
            }
        } else {
            assert(s[0] == (f, setting_in(s, f)->Some_0));
        }
    }
}

/// The settings table: each feature that the configuration mentions, with its
/// mode, in the fixed order of the features.
pub struct PandocConfig {
    pub settings: Vec<(Feature, PandocSetting)>,
}

impl View for PandocConfig {
    type V = Seq<(Feature, PandocSetting)>;

    open spec fn view(&self) -> Seq<(Feature, PandocSetting)> {
        self.settings@
    }
}

/// The mode of the first pair for `f`.
pub open spec fn setting_in(s: Seq<(Feature, PandocSetting)>, f: Feature) -> Option<PandocSetting>
    decreases s.len(),
{
    if s.len() == 0 {
        None
    } else if s[0].0 == f {
        Some(s[0].1)
    } else {
        setting_in(s.drop_first(), f)
    }
}

/// The mode that a value of the configuration asks for.
pub fn parse_setting(v: &ConfigValue) -> (r: Option<PandocSetting>)
    ensures
        r == setting_of(*v),
{
    match v {
        ConfigValue::Str(s) => {
            if *s == "transpile".to_owned() {
                Some(PandocSetting::Transpile)
            } else if *s == "preserve".to_owned() {
                Some(PandocSetting::Preserve)
            } else {
                None
            }
        },
        ConfigValue::Other => Some(PandocSetting::default()),
    }
}

impl PandocConfig {
    /// Builds the settings table from the raw configuration.
    pub fn from_table(table: &ConfigTable) -> (r: Result<PandocConfig, PandocError>)
        ensures
            match r {
                Ok(c) => resolve_features(table.entries@, all_features()) == Ok::<
                    Seq<(Feature, PandocSetting)>,
                    PandocError,
                >(c@),
                Err(e) => resolve_features(table.entries@, all_features()) == Err::<
                    Seq<(Feature, PandocSetting)>,
                    PandocError,
                >(e),
            },
    {
        let features = Feature::all();
        let mut settings: Vec<(Feature, PandocSetting)> = Vec::new();
        let mut i: usize = 0;
        assert(all_features().take(0) =~= Seq::<Feature>::empty());
        while i < features.len()
            invariant
                features@ == all_features(),
                i <= features@.len(),
                resolve_features(table.entries@, all_features().take(i as int)) == Ok::<
                    Seq<(Feature, PandocSetting)>,
                    PandocError,
                >(settings@),
            decreases features@.len() - i,
        {
            let f = features[i];
            let ghost prefix = all_features().take(i as int + 1);
            assert(prefix.drop_last() =~= all_features().take(i as int));
            assert(prefix.last() == f);
            match table.get(f.name()) {
                None => {},
                Some(v) => match parse_setting(v) {
                    Some(m) => settings.push((f, m)),
                    None => {
                        proof {
                            lemma_failure_persists(
                                table.entries@,
                                all_features(),
                                i as int + 1,
                                PandocError::InvalidFeatureValue(f),
                            );
                        }
                        return Err(PandocError::InvalidFeatureValue(f));
                    },
                },
            }
            i = i + 1;
        }
        assert(all_features().take(i as int) =~= all_features());
        Ok(PandocConfig { settings })
    }

    /// The mode of feature `f`, if the configuration mentions it.
    pub fn get(&self, f: Feature) -> (r: Option<PandocSetting>)
        ensures
            r == setting_in(self@, f),
    {
        let mut i: usize = 0;
        assert(self@.subrange(0, self@.len() as int) =~= self@);
        while i < self.settings.len()
            invariant
                i <= self@.len(),
                setting_in(self@, f) == setting_in(self@.subrange(i as int, self@.len() as int), f),
            decreases self@.len() - i,
        {
            let ghost rest = self@.subrange(i as int, self@.len() as int);
            if self.settings[i].0 == f {
                assert(rest[0] == self@[i as int]);
                return Some(self.settings[i].1);
            }
            assert(rest.drop_first() =~= self@.subrange(i as int + 1, self@.len() as int));
            i = i + 1;
        }
        None
    }
}

} // verus!

//! The two extension arguments handed to pandoc.
use vstd::prelude::*;

use crate::settings::{feature_name, Feature, PandocConfig, PandocSetting};

verus! {

/// The fragment that a mentioned feature adds to the input format: the
/// extension is always read.
pub open spec fn from_fragment(e: (Feature, PandocSetting)) -> Seq<char> {
    "+"@ + feature_name(e.0)
}

/// The fragment that a mentioned feature adds to the output format: kept when
/// preserved, switched off when transpiled.
pub open spec fn to_fragment(e: (Feature, PandocSetting)) -> Seq<char> {
    match e.1 {
        PandocSetting::Preserve => "+"@ + feature_name(e.0),
        PandocSetting::Transpile => "-"@ + feature_name(e.0),
    }
}

/// The input fragments, one for each pair of the settings table, in its order.
pub open spec fn from_fragments(s: Seq<(Feature, PandocSetting)>) -> Seq<Seq<char>> {
    s.map_values(|e: (Feature, PandocSetting)| from_fragment(e))
}

/// The output fragments, one for each pair of the settings table, in its order.
pub open spec fn to_fragments(s: Seq<(Feature, PandocSetting)>) -> Seq<Seq<char>> {
    s.map_values(|e: (Feature, PandocSetting)| to_fragment(e))
}

/// The parts written one after another.
pub open spec fn joined(parts: Seq<Seq<char>>) -> Seq<char>
    decreases parts.len(),
{
    if parts.len() == 0 {
        Seq::empty()
    } else {
        joined(parts.drop_last()) + parts.last()
    }
}

/// The input-format argument for a settings table.
pub open spec fn from_flag(s: Seq<(Feature, PandocSetting)>) -> Seq<char> {
    "--from=markdown_strict"@ + joined(from_fragments(s))
}

/// The output-format argument for a settings table.
pub open spec fn to_flag(s: Seq<(Feature, PandocSetting)>) -> Seq<char> {
    "--to=markdown_strict"@ + joined(to_fragments(s))
}

/// The input and output format arguments of the converter.
pub struct CompiledFlags {
    pub from: String,
    pub to: String,
}

/// Builds both format arguments from the settings table.
pub fn compile_flags(config: &PandocConfig) -> (r: CompiledFlags)
    ensures
        r.from@ == from_flag(config@),
        r.to@ == to_flag(config@),
{
    let mut from = "--from=markdown_strict".to_owned();
    let mut to = "--to=markdown_strict".to_owned();
    let mut i: usize = 0;
    assert(from_fragments(config@.take(0)) =~= Seq::<Seq<char>>::empty());
    assert(to_fragments(config@.take(0)) =~= Seq::<Seq<char>>::empty());
    while i < config.settings.len()
        invariant
            i <= config@.len(),
            from@ == from_flag(config@.take(i as int)),
            to@ == to_flag(config@.take(i as int)),
        decreases config@.len() - i,
    {
        let (f, m) = config.settings[i];
        let ghost next = config@.take(i as int + 1);
        assert(from_fragments(next).drop_last() =~= from_fragments(config@.take(i as int)));
        assert(to_fragments(next).drop_last() =~= to_fragments(config@.take(i as int)));
        assert(next.last() == (f, m));
        from.append("+");
        from.append(f.name());
        match m {
            PandocSetting::Preserve => to.append("+"),
            PandocSetting::Transpile => to.append("-"),
        }
        to.append(f.name());
        i = i + 1;
    }
    assert(config@.take(i as int) =~= config@);
    CompiledFlags { from, to }
}

} // verus!

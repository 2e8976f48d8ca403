//! The preprocessor: from its configuration to the converter's arguments, and
//! from the converter's output back into the book.
use vstd::prelude::*;

use crate::bibliography::{bibliography_config, bibliography_gate, bibliography_view, BibliographyConfig};
use crate::book::{all_contents, same_shapes, texts, Book};
use crate::config::{ConfigEntry, ConfigTable};
use crate::error::PandocError;
use crate::flags::{compile_flags, from_flag, to_flag, CompiledFlags};
use crate::settings::{all_features, resolve_features, PandocConfig};

verus! {

/// What a run needs from the configuration: the two format arguments and the
/// bibliography, if citations are rendered.
pub struct ConversionPlan {
    pub flags: CompiledFlags,
    pub bibliography: Option<BibliographyConfig>,
}

/// A plan as plain values: (input format, output format, (bibliography, style)).
pub open spec fn plan_view(p: ConversionPlan) -> (Seq<char>, Seq<char>, Option<(Seq<char>, Seq<char>)>) {
    (p.flags.from@, p.flags.to@, bibliography_view(p.bibliography))
}

/// The plan that a configuration table calls for; a missing table, a
/// rejected feature value or an incomplete bibliography fails.
pub open spec fn plan_of(entries: Option<Seq<ConfigEntry>>) -> Result<
    (Seq<char>, Seq<char>, Option<(Seq<char>, Seq<char>)>),
    PandocError,
> {
    match entries {
        None => Err(PandocError::ConfigMissing),
        Some(e) => match resolve_features(e, all_features()) {
            Err(x) => Err(x),
            Ok(s) => match bibliography_gate(s, e) {
                Err(x) => Err(x),
                Ok(b) => Ok((from_flag(s), to_flag(s), b)),
            },
        },
    }
}

/// The converter's arguments for the given formats and bibliography.
pub open spec fn command_args_of(
    from: Seq<char>,
    to: Seq<char>,
    bib: Option<(Seq<char>, Seq<char>)>,
) -> Seq<Seq<char>> {
    match bib {
        None => seq![from, to],
        Some((b, style)) => seq![
            from,
            to,
            "--csl="@ + style,
            "--bibliography="@ + b,
            "--metadata=link-citations"@,
            "--metadata=link-bibliography"@,
            "--citeproc"@,
        ],
    }
}

/// The text that the bytes stand for, with each invalid sequence replaced by
/// U+FFFD.
pub uninterp spec fn lossy_utf8(b: Seq<u8>) -> Seq<char>;

/// Relies on `String::from_utf8_lossy`: decodes UTF-8, replacing invalid
/// sequences instead of failing.
#[verifier::external_body]
fn utf8_lossy(b: &Vec<u8>) -> (r: String)
    ensures
        r@ == lossy_utf8(b@),
{
    String::from_utf8_lossy(b.as_slice()).into_owned()
}

/// Decodes the converter's output; invalid byte sequences are replaced, never
/// an error.
pub fn decode_output(b: &Vec<u8>) -> (r: String)
    ensures
        r@ == lossy_utf8(b@),
{
    utf8_lossy(b)
}

/// Decodes each of the converter's outputs.
pub fn decode_outputs(raw: &Vec<Vec<u8>>) -> (r: Vec<String>)
    ensures
        r@.len() == raw@.len(),
        forall|i: int| 0 <= i < raw@.len() ==> #[trigger] r@[i]@ == lossy_utf8(raw@[i]@),
{
    let mut r: Vec<String> = Vec::new();
    let mut i: usize = 0;
    while i < raw.len()
        invariant
            i <= raw@.len(),
            r@.len() == i,
            forall|j: int| 0 <= j < i ==> #[trigger] r@[j]@ == lossy_utf8(raw@[j]@),
        decreases raw@.len() - i,
    {
        r.push(decode_output(&raw[i]));
        i = i + 1;
    }
    r
}

/// Gives the chapters of `book`, in document order, the decoded outputs of
/// the converter; everything else in the book stays as it was.
pub fn apply_outputs(book: &mut Book, raw: &Vec<Vec<u8>>)
    requires
        raw@.len() == all_contents(old(book).sections@).len(),
    ensures
        same_shapes(old(book).sections@, final(book).sections@),
        all_contents(final(book).sections@).len() == raw@.len(),
        forall|i: int|
            0 <= i < raw@.len() ==> #[trigger] all_contents(final(book).sections@)[i]
                == lossy_utf8(raw@[i]@),
{
    let decoded = decode_outputs(raw);
    book.set_chapter_contents(&decoded);
}

impl ConversionPlan {
    /// The arguments of one run of the converter.
    pub fn command_args(&self) -> (r: Vec<String>)
        ensures
            texts(r@) == command_args_of(
                self.flags.from@,
                self.flags.to@,
                bibliography_view(self.bibliography),
            ),
    {
        let mut r: Vec<String> = Vec::new();
        r.push(self.flags.from.clone());
        r.push(self.flags.to.clone());
        match &self.bibliography {
            Some(b) => {
                let mut csl = "--csl=".to_owned();
                csl.append(b.bibliography_style.as_str());
                let mut bib = "--bibliography=".to_owned();
                bib.append(b.bibliography.as_str());
                r.push(csl);
                r.push(bib);
                r.push("--metadata=link-citations".to_owned());
                r.push("--metadata=link-bibliography".to_owned());
                r.push("--citeproc".to_owned());
            },
            None => {},
        }
        assert(texts(r@) =~= command_args_of(
            self.flags.from@,
            self.flags.to@,
            bibliography_view(self.bibliography),
        ));
        r
    }
}

/// The preprocessor that runs every chapter through pandoc.
pub struct Pandoc;

impl Pandoc {
    pub fn new() -> (r: Self) {
        Pandoc
    }

    /// The name under which the book's configuration holds this
    /// preprocessor's table.
    pub fn name(&self) -> (r: &'static str)
        ensures
            r@ == "citeproc"@,
    {
        "citeproc"
    }

    /// Whether this preprocessor runs for `renderer`: every renderer but
    /// "not-supported".
    pub fn supports_renderer(&self, renderer: &str) -> (r: bool)
        ensures
            r == (renderer@ != "not-supported"@),
    {
        let given = renderer.to_owned();
        let refused = "not-supported".to_owned();
        !(given == refused)
    }

    /// Reads this preprocessor's table (`None` when the book has none) into
    /// the plan for every chapter.
    pub fn prepare(&self, table: Option<&ConfigTable>) -> (r: Result<ConversionPlan, PandocError>)
        ensures
            match r {
                Ok(p) => plan_of(
                    match table {
                        Some(t) => Some(t.entries@),
                        None => None,
                    },
                ) == Ok::<_, PandocError>(plan_view(p)),
                Err(e) => plan_of(
                    match table {
                        Some(t) => Some(t.entries@),
                        None => None,
                    },
                ) == Err::<(Seq<char>, Seq<char>, Option<(Seq<char>, Seq<char>)>), _>(e),
            },
    {
        match table {
            None => Err(PandocError::ConfigMissing),
            Some(t) => {
                let config = match PandocConfig::from_table(t) {
                    Ok(c) => c,
                    Err(e) => return Err(e),
                };
                let bibliography = match bibliography_config(&config, t) {
                    Ok(b) => b,
                    Err(e) => return Err(e),
                };
                let flags = compile_flags(&config);
                Ok(ConversionPlan { flags, bibliography })
            },
        }
    }
}

} // verus!

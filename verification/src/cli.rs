//! Command-line options and the decisions taken on them before any I/O.

use vstd::prelude::*;

use crate::error::Error;
use crate::text::{
    chars_of, find_char, index_of, lemma_index_of, lemma_trim, no_edge_ws, string_of, subvec,
    trim, trim_chars,
};

verus! {

/// The program's options, as the command line gave them.
pub struct Args {
    /// One or more LCSC component IDs (e.g. C2040 C25744).
    pub lcsc_id: Vec<String>,
    /// Emit the symbol library.
    pub symbol: bool,
    /// Emit the footprint library.
    pub footprint: bool,
    /// Embed 3D models in the footprint library.
    pub three_d: bool,
    /// Emit symbol, footprint and 3D model.
    pub full: bool,
    /// Output basename.
    pub output: Option<String>,
    /// Replace existing output files.
    pub overwrite: bool,
    /// Cache API responses on disk.
    pub use_cache: bool,
    /// Extra symbol parameters written `Key:Value`.
    pub custom_field: Vec<String>,
    /// Strip CJK ideographs from human-visible strings.
    pub strip_chinese: bool,
    /// Font for all text in the output.
    pub font: Option<String>,
}

/// Whether an LCSC id is acceptable: it starts with `C`.
pub open spec fn valid_lcsc_id(id: Seq<char>) -> bool {
    id.len() > 0 && id[0] == 'C'
}

/// The text of the error for an LCSC id that does not start with `C`.
pub open spec fn lcsc_id_error(id: Seq<char>) -> Seq<char> {
    "lcsc_id '"@ + id + "' must start with 'C'"@
}

/// The `Key` and `Value` halves of a raw custom field, split at its first
/// `:`, or `None` where it has no `:` (`str::split_once(':')`).
pub open spec fn split_once_colon(raw: Seq<char>) -> Option<(Seq<char>, Seq<char>)> {
    let i = index_of(raw, ':');
    if i < raw.len() {
        Some((raw.take(i), raw.skip(i + 1)))
    } else {
        None
    }
}

/// Whether a raw custom field is acceptable: it has a `:` and a key that is
/// not empty once trimmed.
pub open spec fn valid_custom_field(raw: Seq<char>) -> bool {
    match split_once_colon(raw) {
        Some((k, _)) => trim(k).len() > 0,
        None => false,
    }
}

/// The text of the error for an unacceptable raw custom field.
pub open spec fn custom_field_error(raw: Seq<char>) -> Seq<char> {
    match split_once_colon(raw) {
        Some(_) => "custom-field '"@ + raw + "' has empty key"@,
        None => "custom-field '"@ + raw + "' missing ':'"@,
    }
}

/// The parsed `(key, value)` pair of an acceptable raw custom field.
pub open spec fn custom_field_pair(raw: Seq<char>) -> (Seq<char>, Seq<char>) {
    match split_once_colon(raw) {
        Some((k, v)) => (trim(k), trim(v)),
        None => (Seq::empty(), Seq::empty()),
    }
}

/// Which libraries to write.
#[derive(Debug, Clone, Copy, PartialEq, Eq)]
pub struct OutputSelection {
    pub symbol: bool,
    pub footprint: bool,
    pub three_d: bool,
}

/// The text of the error when no output was asked for.
pub open spec fn no_output_error() -> Seq<char> {
    "specify at least one of --symbol / --footprint / --3d / --full"@
}

/// The libraries selected by the flags `--symbol`, `--footprint`, `--3d`
/// and `--full`; none where nothing is selected.
pub open spec fn selection_spec(symbol: bool, footprint: bool, three_d: bool, full: bool) -> Option<
    OutputSelection,
> {
    if full || symbol || footprint || three_d {
        Some(
            OutputSelection {
                symbol: full || symbol,
                footprint: full || footprint,
                three_d: full || three_d,
            },
        )
    } else {
        None
    }
}

/// `--full` is the same as `--symbol --footprint --3d`, whatever else is
/// given with it.
pub proof fn lemma_full_selects_everything(symbol: bool, footprint: bool, three_d: bool)
    ensures
        selection_spec(symbol, footprint, three_d, true) == selection_spec(true, true, true, false),
{
}

/// Each library is selected exactly when its own flag or `--full` is given,
/// whatever the other flags say; a selection is made exactly when at least
/// one flag is given.
pub proof fn lemma_selection_by_own_flag(symbol: bool, footprint: bool, three_d: bool, full: bool)
    ensures
        selection_spec(symbol, footprint, three_d, full) is Some <==> (symbol || footprint
            || three_d || full),
        selection_spec(symbol, footprint, three_d, full) matches Some(sel) ==> (sel.symbol
            <==> symbol || full) && (sel.footprint <==> footprint || full) && (sel.three_d
            <==> three_d || full),
{
}

impl Args {
    /// Checks that every LCSC id starts with `C`; the error names the first
    /// one that does not.
    pub fn validate(&self) -> (r: Result<(), Error>)
        ensures
            r is Ok <==> forall|i: int|
                0 <= i < self.lcsc_id@.len() ==> valid_lcsc_id(#[trigger] self.lcsc_id@[i]@),
            r matches Err(e) ==> exists|k: int|
                0 <= k < self.lcsc_id@.len() && !valid_lcsc_id(self.lcsc_id@[k]@) && (forall|i: int|
                    0 <= i < k ==> valid_lcsc_id(#[trigger] self.lcsc_id@[i]@)) && (e matches Error::InvalidArg(m)
                    && m@ == lcsc_id_error(self.lcsc_id@[k]@)),
    {
        let n = self.lcsc_id.len();
        let mut i: usize = 0;
        while i < n
            invariant
                i <= n == self.lcsc_id@.len(),
                forall|j: int| 0 <= j < i ==> valid_lcsc_id(#[trigger] self.lcsc_id@[j]@),
            decreases n - i,
        {
            let id = &self.lcsc_id[i];
            let chars = chars_of(id.as_str());
            if chars.len() == 0 || chars[0] != 'C' {
                let msg = String::from_str("lcsc_id '").concat(id.as_str()).concat(
                    "' must start with 'C'",
                );
                return Err(Error::InvalidArg(msg));
            }
            i += 1;
        }
        Ok(())
    }

    /// The `(key, value)` pairs of the custom fields, each split at its first
    /// `:` and trimmed; the error names the first field without a `:` or with
    /// an empty key.
    pub fn parsed_custom_fields(&self) -> (r: Result<Vec<(String, String)>, Error>)
        ensures
            r is Ok <==> forall|i: int|
                0 <= i < self.custom_field@.len() ==> valid_custom_field(
                    #[trigger] self.custom_field@[i]@,
                ),
            r matches Ok(out) ==> out@.len() == self.custom_field@.len() && forall|i: int|
                0 <= i < out@.len() ==> (#[trigger] out@[i]).0@ == custom_field_pair(
                    self.custom_field@[i]@,
                ).0 && out@[i].1@ == custom_field_pair(self.custom_field@[i]@).1
                    && out@[i].0@.len() > 0 && no_edge_ws(out@[i].0@) && no_edge_ws(out@[i].1@),
            r matches Err(e) ==> exists|k: int|
                0 <= k < self.custom_field@.len() && !valid_custom_field(self.custom_field@[k]@)
                    && (forall|i: int|
                    0 <= i < k ==> valid_custom_field(#[trigger] self.custom_field@[i]@)) && (e matches Error::InvalidArg(m)
                    && m@ == custom_field_error(self.custom_field@[k]@)),
    {
        let n = self.custom_field.len();
        let mut out: Vec<(String, String)> = Vec::new();
        let mut i: usize = 0;
        while i < n
            invariant
                i <= n == self.custom_field@.len(),
                out@.len() == i,
                forall|j: int| 0 <= j < i ==> valid_custom_field(#[trigger] self.custom_field@[j]@),
                forall|j: int|
                    0 <= j < i ==> (#[trigger] out@[j]).0@ == custom_field_pair(
                        self.custom_field@[j]@,
                    ).0 && out@[j].1@ == custom_field_pair(self.custom_field@[j]@).1
                        && out@[j].0@.len() > 0 && no_edge_ws(out@[j].0@) && no_edge_ws(
                        out@[j].1@,
                    ),
            decreases n - i,
        {
            let raw = &self.custom_field[i];
            let chars = chars_of(raw.as_str());
            proof {
                lemma_index_of(chars@, ':');
            }
            match find_char(&chars, ':') {
                None => {
                    let msg = String::from_str("custom-field '").concat(raw.as_str()).concat(
                        "' missing ':'",
                    );
                    return Err(Error::InvalidArg(msg));
                },
                Some(c) => {
                    assert(c < chars@.len());
                    let len = chars.len();
                    let after = c + 1;
                    let k = trim_chars(&subvec(&chars, 0, c));
                    let v = trim_chars(&subvec(&chars, after, len));
                    assert(chars@.subrange(0, c as int) =~= chars@.take(c as int));
                    assert(chars@.subrange(c + 1, chars@.len() as int) =~= chars@.skip(c + 1));
                    if k.len() == 0 {
                        let msg = String::from_str("custom-field '").concat(raw.as_str()).concat(
                            "' has empty key",
                        );
                        return Err(Error::InvalidArg(msg));
                    }
                    proof {
                        lemma_trim(chars@.take(c as int));
                        lemma_trim(chars@.skip(c + 1));
                    }
                    out.push((string_of(&k), string_of(&v)));
                },
            }
            i += 1;
        }
        Ok(out)
    }

    /// Which libraries to write: `--full` selects all three; without any
    /// selection the options are refused.
    pub fn output_selection(&self) -> (r: Result<OutputSelection, Error>)
        ensures
            match r {
                Ok(sel) => selection_spec(self.symbol, self.footprint, self.three_d, self.full)
                    == Some(sel),
                Err(_) => selection_spec(self.symbol, self.footprint, self.three_d, self.full)
                    is None,
            },
            r matches Err(e) ==> e matches Error::InvalidArg(m) && m@ == no_output_error(),
    {
        let sel = if self.full {
            OutputSelection { symbol: true, footprint: true, three_d: true }
        } else {
            OutputSelection {
                symbol: self.symbol,
                footprint: self.footprint,
                three_d: self.three_d,
            }
        };
        if !sel.symbol && !sel.footprint && !sel.three_d {
            return Err(
                Error::InvalidArg(
                    String::from_str(
                        "specify at least one of --symbol / --footprint / --3d / --full",
                    ),
                ),
            );
        }
        Ok(sel)
    }
}

/// What to do with a footprint's 3D model before converting it.
#[derive(Debug, Clone, Copy, PartialEq, Eq)]
pub enum ModelAction {
    /// Fetch the model's STEP body and embed it.
    FetchStep,
    /// Keep the model record as it is, without fetching anything.
    KeepModel,
    /// Drop the model: no 3D output was asked for.
    DropModel,
}

/// What to do with a footprint's 3D model: without 3D output it is dropped;
/// a model with a uuid has its STEP body fetched; otherwise it is kept as it
/// is. (Where the fetch finds no body, the model is dropped.)
pub fn footprint_model_action(want_3d: bool, model_uuid: Option<&str>) -> (r: ModelAction)
    ensures
        r == (if !want_3d {
            ModelAction::DropModel
        } else {
            match model_uuid {
                Some(u) => if u@.len() > 0 {
                    ModelAction::FetchStep
                } else {
                    ModelAction::KeepModel
                },
                None => ModelAction::KeepModel,
            }
        }),
{
    if !want_3d {
        return ModelAction::DropModel;
    }
    match model_uuid {
        Some(u) => if u.unicode_len() > 0 {
            ModelAction::FetchStep
        } else {
            ModelAction::KeepModel
        },
        None => ModelAction::KeepModel,
    }
}

/// Refuses to replace an existing output file unless overwriting was asked
/// for.
pub fn ensure_overwrite_ok(exists: bool, overwrite: bool, path: &str) -> (r: Result<(), Error>)
    ensures
        r is Err <==> exists && !overwrite,
        r matches Err(e) ==> e matches Error::AlreadyExists(p) && p@ == path@,
{
    if exists && !overwrite {
        return Err(Error::AlreadyExists(path.to_owned()));
    }
    Ok(())
}

/// The two library files written for the output basename `base`:
/// `<base>.SchLib` and `<base>.PcbLib`.
pub fn library_paths(base: &str) -> (r: (String, String))
    ensures
        r.0@ == base@ + ".SchLib"@,
        r.1@ == base@ + ".PcbLib"@,
{
    let sch = String::from_str(base).concat(".SchLib");
    let pcb = String::from_str(base).concat(".PcbLib");
    (sch, pcb)
}

} // verus!

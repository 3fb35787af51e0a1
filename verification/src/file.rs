//! The input file: its path, name and contents.
use crate::text::{self, crlf_pieces, decimal};
use vstd::prelude::*;

verus! {

/// filepath, filename, filecontents, nosave.
///
/// nosave avoids saving the output file, for when the input could make invalid Rust.
#[derive(Clone, Debug, Default)]
pub struct File {
    pub filepath: String,
    pub filename: String,
    pub filecontents: String,
    pub nosave: bool,
}

impl File {
    /// A new File with empty path, name and contents.
    pub fn new(nosave: bool) -> (f: File)
        ensures
            f.filepath@ == Seq::<char>::empty(),
            f.filename@ == Seq::<char>::empty(),
            f.filecontents@ == Seq::<char>::empty(),
            f.nosave == nosave,
    {
        File { filename: String::new(), filepath: String::new(), filecontents: String::new(), nosave }
    }
}

/// What becomes of the written program: it is not saved with the nosave flag, nor after
/// compilation errors; otherwise it is saved.
#[derive(Clone, Copy, Debug, PartialEq, Eq, Structural)]
pub enum SaveDecision {
    NoSave,
    Errors,
    Save,
}

impl File {
    /// Decides whether the written program is saved: not with the nosave flag, nor when
    /// there were compilation errors.
    pub fn save_decision(&self, is_error: bool) -> (d: SaveDecision)
        ensures
            d == (if self.nosave {
                SaveDecision::NoSave
            } else if is_error {
                SaveDecision::Errors
            } else {
                SaveDecision::Save
            }),
    {
        if self.nosave {
            SaveDecision::NoSave
        } else if is_error {
            SaveDecision::Errors
        } else {
            SaveDecision::Save
        }
    }
}

/// The contents of an input file.
pub type FileContents = String;

/// The numbered lines of file contents, up to the `k`th piece: each on a new line, indented
/// by two spaces, as "number: line,".
pub open spec fn content_lines(pieces: Seq<Seq<char>>, k: nat) -> Seq<char>
    decreases k,
{
    if k == 0 || k > pieces.len() {
        Seq::empty()
    } else {
        content_lines(pieces, (k - 1) as nat) + "\r\n  "@ + decimal((k - 1) as nat) + ": "@ + pieces[k - 1] + ","@
    }
}

/// File contents, to be written out for debugging.
pub struct DebugFileContents<'a>(pub &'a FileContents);

impl<'a> DebugFileContents<'a> {
    /// One numbered line per line of the contents (split at "\r\n").
    pub fn text(&self) -> (r: String)
        ensures
            r@ == "Custom Debug of FileContents"@ + content_lines(crlf_pieces(self.0@, 0, 0), crlf_pieces(self.0@, 0, 0).len()) + "\r\n"@,
    {
        let pieces = text::split_crlf(self.0);
        let ghost pv = pieces@.map_values(|p: String| p@);
        let mut body = String::new();
        let mut i: usize = 0;
        while i < pieces.len()
            invariant
                i <= pieces@.len(),
                pv == pieces@.map_values(|p: String| p@),
                body@ == content_lines(pv, i as nat),
            decreases pieces@.len() - i,
        {
            let a = text::concat(&text::concat_str(&body, "\r\n  "), &text::usize_to_string(i));
            body = text::concat_str(&text::concat(&text::concat_str(&a, ": "), &pieces[i]), ",");
            i = i + 1;
        }
        text::concat_str(&text::concat(&text::lit("Custom Debug of FileContents"), &body), "\r\n")
    }
}

} // verus!

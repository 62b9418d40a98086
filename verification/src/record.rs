//! The unit of data flowing through the pipeline: one line of one file.

use vstd::prelude::*;
use crate::decimal::{dec_str, push_dec_u64};

verus! {

/// One line of one file, as carried through the pipeline.
pub struct LineInfo {
    /// The path of the originating file.
    pub file: String,
    /// The zero-based position of the line within that file.
    pub line: usize,
    /// The line's content, newline stripped.
    pub text: String,
}

/// The mathematical shadow of a `LineInfo`.
pub struct Rec {
    pub file: Seq<char>,
    pub line: nat,
    pub text: Seq<char>,
}

impl View for LineInfo {
    type V = Rec;

    open spec fn view(&self) -> Rec {
        Rec { file: self.file@, line: self.line as nat, text: self.text@ }
    }
}

/// The records of a sequence of lines.
pub open spec fn recs_of(s: Seq<LineInfo>) -> Seq<Rec> {
    s.map_values(|l: LineInfo| l@)
}

/// The printed form of a record: `<file>:<line>:<text>`.
pub open spec fn format_line_spec(r: Rec) -> Seq<char> {
    r.file + seq![':'] + dec_str(r.line) + seq![':'] + r.text
}

/// Renders a record in the form `<file>:<line>:<text>`.
pub fn format_line(l: &LineInfo) -> (s: String)
    ensures
        s@ == format_line_spec(l@),
{
    let mut s = l.file.clone();
    proof {
        reveal_strlit(":");
        assert((":")@ =~= seq![':']);
    }
    s.append(":");
    let wide: u64 = l.line as u64;
    proof {
        assert(wide as nat == l.line as nat);
    }
    push_dec_u64(&mut s, wide);
    s.append(":");
    s.append(l.text.as_str());
    proof {
        assert(s@ =~= format_line_spec(l@));
    }
    s
}

} // verus!

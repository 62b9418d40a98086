//! The filter stage: records whose text the matcher accepts go through in
//! arrival order; the rest are discarded.

use vstd::prelude::*;
use crate::matcher::Matcher;
use crate::record::{recs_of, LineInfo, Rec};

verus! {

/// Keeps exactly the records whose text the matcher accepts, in arrival
/// order.
pub fn filter_lines(matcher: &Matcher, lines: Vec<LineInfo>) -> (out: Vec<LineInfo>)
    ensures
        recs_of(out@) == recs_of(lines@).filter(
            |r: Rec| matcher.spec_matches(r.text),
        ),
{
    let ghost pred = |r: Rec| matcher.spec_matches(r.text);
    let ghost all = recs_of(lines@);
    let mut lines = lines;
    let mut out: Vec<LineInfo> = Vec::new();
    let ghost mut done: Seq<Rec> = Seq::empty();
    proof {
        reveal(Seq::filter);
        assert(done + recs_of(lines@) =~= all);
        assert(recs_of(out@) =~= done.filter(pred));
    }
    while lines.len() > 0
        invariant
            done + recs_of(lines@) == all,
            recs_of(out@) == done.filter(pred),
            pred == (|r: Rec| matcher.spec_matches(r.text)),
        decreases lines@.len(),
    {
        let ghost pre = recs_of(lines@);
        let line_info = lines.remove(0);
        if matcher.matches(line_info.text.as_str()) {
            out.push(line_info);
        }
        proof {
            reveal(Seq::filter);
            let done2 = done.push(line_info@);
            assert(recs_of(lines@) =~= pre.drop_first());
            assert(done2.drop_last() =~= done);
            assert(done2.last() == line_info@);
            assert(done2 + recs_of(lines@) =~= all);
            if pred(line_info@) {
                assert(recs_of(out@) =~= done.filter(pred).push(line_info@));
                assert(done2.filter(pred) == done.filter(pred).push(line_info@));
            } else {
                assert(done2.filter(pred) == done.filter(pred));
            }
            done = done2;
        }
    }
    proof {
        reveal(Seq::filter);
        assert(recs_of(lines@) =~= Seq::<Rec>::empty());
        assert(done =~= all);
    }
    out
}

} // verus!

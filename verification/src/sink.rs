//! The sink stage: what the pipeline emits for the matched records, under
//! each of the three output modes.

use vstd::prelude::*;
use vstd::slice::slice_index_get;
use crate::config::OutputMode;
use crate::decimal::{dec_str, push_dec_u64};
use crate::record::{format_line, format_line_spec, recs_of, LineInfo, Rec};
use crate::textsearch::{lemma_lex_lt_connex, lemma_lex_lt_irrefl, lemma_lex_lt_trans, lex_lt,
    text_lt};

verus! {

/// Where a record joins an ascending run: after every record whose text does
/// not come after its own, so a newcomer lands behind its equals.
pub open spec fn insert_by_text(s: Seq<Rec>, x: Rec) -> Seq<Rec>
    decreases s.len(),
{
    if s.len() == 0 {
        seq![x]
    } else if lex_lt(x.text, s[0].text) {
        seq![x] + s
    } else {
        seq![s[0]] + insert_by_text(s.drop_first(), x)
    }
}

/// Sorting by text, keeping arrival order among equal texts: each record in
/// turn joins the run of those before it.
pub open spec fn sort_by_text(s: Seq<Rec>) -> Seq<Rec>
    decreases s.len(),
{
    if s.len() == 0 {
        s
    } else {
        insert_by_text(sort_by_text(s.drop_last()), s.last())
    }
}

/// The texts never descend.
pub open spec fn sorted_by_text(s: Seq<Rec>) -> bool {
    forall|i: int, j: int| 0 <= i < j < s.len() ==> !lex_lt(s[j].text, s[i].text)
}

/// Joining an ascending run at the scanned position keeps it ascending.
pub proof fn lemma_insert_sorted(s: Seq<Rec>, x: Rec)
    requires
        sorted_by_text(s),
    ensures
        sorted_by_text(insert_by_text(s, x)),
        insert_by_text(s, x).len() == s.len() + 1,
    decreases s.len(),
{
    if s.len() == 0 {
    } else if lex_lt(x.text, s[0].text) {
        let t = seq![x] + s;
        assert forall|i: int, j: int| 0 <= i < j < t.len() implies !lex_lt(t[j].text, t[i].text) by {
            if i == 0 {
                assert(t[j] == s[j - 1]);
                if lex_lt(t[j].text, x.text) {
                    lemma_lex_lt_trans(s[j - 1].text, x.text, s[0].text);
                    lemma_lex_lt_irrefl(s[0].text);
                }
            } else {
                assert(t[i] == s[i - 1]);
                assert(t[j] == s[j - 1]);
            }
        }
    } else {
        let rest = s.drop_first();
        assert(forall|i: int, j: int|
            0 <= i < j < rest.len() ==> rest[i] == s[i + 1] && rest[j] == s[j + 1]);
        lemma_insert_sorted(rest, x);
        let t = seq![s[0]] + insert_by_text(rest, x);
        assert forall|i: int, j: int| 0 <= i < j < t.len() implies !lex_lt(t[j].text, t[i].text) by {
            if i == 0 {
                lemma_insert_position(rest, x, j - 1);
                if lex_lt(t[j].text, s[0].text) {
                    if t[j] == x {
                        assert(!lex_lt(x.text, s[0].text));
                    } else {
                        assert(exists|k: int| 0 <= k < rest.len() && rest[k] == t[j]);
                        let k = choose|k: int| 0 <= k < rest.len() && rest[k] == t[j];
                        assert(!lex_lt(s[k + 1].text, s[0].text));
                    }
                }
            }
        }
    }
}

/// Every slot of an insertion holds the newcomer or a record of the run.
pub proof fn lemma_insert_position(s: Seq<Rec>, x: Rec, j: int)
    requires
        0 <= j < insert_by_text(s, x).len(),
    ensures
        insert_by_text(s, x)[j] == x || exists|k: int| 0 <= k < s.len() && s[k] == insert_by_text(
            s,
            x,
        )[j],
    decreases s.len(),
{
    if s.len() == 0 {
    } else if lex_lt(x.text, s[0].text) {
    } else {
        if j > 0 {
            lemma_insert_position(s.drop_first(), x, j - 1);
            let t = insert_by_text(s.drop_first(), x)[j - 1];
            if t != x {
                let k = choose|k: int|
                    0 <= k < s.drop_first().len() && s.drop_first()[k] == t;
                assert(s[k + 1] == t);
            }
        }
    }
}

/// The whole sort is ascending.
pub proof fn lemma_sort_sorted(s: Seq<Rec>)
    ensures
        sorted_by_text(sort_by_text(s)),
        sort_by_text(s).len() == s.len(),
    decreases s.len(),
{
    if s.len() > 0 {
        lemma_sort_sorted(s.drop_last());
        lemma_insert_sorted(sort_by_text(s.drop_last()), s.last());
    }
}

/// Those records of one text value, in an insertion: the newcomer of that
/// text goes exactly to the back of them.
proof fn lemma_insert_filter_text(s: Seq<Rec>, x: Rec, t: Seq<char>)
    requires
        sorted_by_text(s),
    ensures
        insert_by_text(s, x).filter(|r: Rec| r.text == t) == if x.text == t {
            s.filter(|r: Rec| r.text == t).push(x)
        } else {
            s.filter(|r: Rec| r.text == t)
        },
    decreases s.len(),
{
    reveal(Seq::filter);
    let p = |r: Rec| r.text == t;
    if s.len() == 0 {
        assert(seq![x].drop_last() =~= Seq::<Rec>::empty());
        assert(Seq::<Rec>::empty().filter(p) =~= Seq::<Rec>::empty());
        if p(x) {
            assert(seq![x].filter(p) =~= Seq::<Rec>::empty().push(x));
            assert(s.filter(p) =~= Seq::<Rec>::empty());
        } else {
            assert(seq![x].filter(p) =~= Seq::<Rec>::empty());
            assert(s.filter(p) =~= Seq::<Rec>::empty());
        }
    } else if lex_lt(x.text, s[0].text) {
        // the newcomer goes in front: nothing behind it can carry its text
        assert forall|k: int| 0 <= k < s.len() implies s[k].text != x.text by {
            if k > 0 {
                assert(!lex_lt(s[k].text, s[0].text));
            }
            if s[k].text == x.text {
                if lex_lt(s[k].text, s[0].text) {
                    assert(k == 0);
                    lemma_lex_lt_irrefl(s[0].text);
                } else if lex_lt(x.text, s[k].text) {
                    lemma_lex_lt_irrefl(x.text);
                } else {
                    lemma_lex_lt_connex(x.text, s[k].text);
                    lemma_lex_lt_irrefl(x.text);
                }
            }
        }
        lemma_filter_add(seq![x], s, p);
        assert(seq![x].drop_last() =~= Seq::<Rec>::empty());
        assert(Seq::<Rec>::empty().filter(p) =~= Seq::<Rec>::empty());
        if p(x) {
            lemma_filter_no_match(s, p);
            assert(seq![x].filter(p) =~= Seq::<Rec>::empty().push(x));
            assert((seq![x] + s).filter(p) =~= s.filter(p).push(x));
        } else {
            assert(seq![x].filter(p) =~= Seq::<Rec>::empty());
            assert((seq![x] + s).filter(p) =~= s.filter(p));
        }
    } else {
        let rest = s.drop_first();
        assert(forall|i: int, j: int|
            0 <= i < j < rest.len() ==> rest[i] == s[i + 1] && rest[j] == s[j + 1]);
        lemma_insert_filter_text(rest, x, t);
        lemma_filter_add(seq![s[0]], insert_by_text(rest, x), p);
        lemma_filter_add(seq![s[0]], rest, p);
        assert(seq![s[0]] + rest =~= s);
        assert(seq![s[0]].drop_last() =~= Seq::<Rec>::empty());
        if p(x) {
            assert(seq![s[0]].filter(p) + rest.filter(p).push(x) =~= (seq![s[0]].filter(p)
                + rest.filter(p)).push(x));
        }
    }
}

/// Filtering a concatenation filters each part.
proof fn lemma_filter_add(a: Seq<Rec>, b: Seq<Rec>, p: spec_fn(Rec) -> bool)
    ensures
        (a + b).filter(p) == a.filter(p) + b.filter(p),
{
    reveal(Seq::filter);
    Seq::filter_distributes_over_add(a, b, p);
}

/// A sequence none of whose records satisfy the predicate filters to nothing.
proof fn lemma_filter_no_match(s: Seq<Rec>, p: spec_fn(Rec) -> bool)
    requires
        forall|k: int| 0 <= k < s.len() ==> !p(s[k]),
    ensures
        s.filter(p) == Seq::<Rec>::empty(),
    decreases s.len(),
{
    reveal(Seq::filter);
    if s.len() > 0 {
        lemma_filter_no_match(s.drop_last(), p);
        assert(s.filter(p) =~= Seq::<Rec>::empty());
    } else {
        assert(s.filter(p) =~= Seq::<Rec>::empty());
    }
}

/// Sort stability: for any text value, the records carrying it leave the sort
/// exactly as they arrived — same records, same order.
pub proof fn lemma_sort_stable(s: Seq<Rec>, t: Seq<char>)
    ensures
        sort_by_text(s).filter(|r: Rec| r.text == t) == s.filter(|r: Rec| r.text == t),
    decreases s.len(),
{
    reveal(Seq::filter);
    let p = |r: Rec| r.text == t;
    if s.len() > 0 {
        lemma_sort_stable(s.drop_last(), t);
        lemma_sort_sorted(s.drop_last());
        lemma_insert_filter_text(sort_by_text(s.drop_last()), s.last(), t);
    }
}


/// Inserting at the scanned position is the ordered insertion: the scan
/// passed every record not after the newcomer and stopped at the first one
/// after it.
proof fn lemma_insert_at(s: Seq<Rec>, x: Rec, idx: int)
    requires
        0 <= idx <= s.len(),
        forall|j: int| 0 <= j < idx ==> !lex_lt(x.text, s[j].text),
        idx < s.len() ==> lex_lt(x.text, s[idx].text),
    ensures
        insert_by_text(s, x) == s.insert(idx, x),
    decreases s.len(),
{
    if s.len() == 0 {
        assert(insert_by_text(s, x) =~= s.insert(0, x));
    } else if lex_lt(x.text, s[0].text) {
        assert(idx == 0);
        assert(seq![x] + s =~= s.insert(0, x));
    } else {
        assert(idx > 0);
        let rest = s.drop_first();
        assert(forall|j: int| 0 <= j < rest.len() ==> rest[j] == s[j + 1]);
        lemma_insert_at(rest, x, idx - 1);
        assert(seq![s[0]] + rest.insert(idx - 1, x) =~= s.insert(idx, x));
    }
}

/// Sorts the records by text; arrival order decides between equal texts.
pub fn sort_records(records: Vec<LineInfo>) -> (out: Vec<LineInfo>)
    ensures
        recs_of(out@) == sort_by_text(recs_of(records@)),
{
    let ghost all = recs_of(records@);
    let mut records = records;
    let mut out: Vec<LineInfo> = Vec::new();
    let ghost mut done: Seq<Rec> = Seq::empty();
    proof {
        assert(done + recs_of(records@) =~= all);
        assert(recs_of(out@) =~= sort_by_text(done));
    }
    while records.len() > 0
        invariant
            done + recs_of(records@) == all,
            recs_of(out@) == sort_by_text(done),
        decreases records@.len(),
    {
        let ghost pre = recs_of(records@);
        let x = records.remove(0);
        proof {
            assert(recs_of(records@) =~= pre.drop_first());
        }
        let mut idx: usize = 0;
        let mut found = false;
        while !found && idx < out.len()
            invariant
                idx <= out@.len(),
                forall|j: int| 0 <= j < idx ==> !lex_lt(x@.text, recs_of(out@)[j].text),
                found ==> idx < out@.len() && lex_lt(x@.text, recs_of(out@)[idx as int].text),
            decreases out@.len() - idx + (if found { 0int } else { 1int }),
        {
            let cur: &LineInfo = slice_index_get(out.as_slice(), idx);
            if text_lt(x.text.as_str(), cur.text.as_str()) {
                found = true;
            } else {
                idx = idx + 1;
            }
        }
        let ghost out_pre = out@;
        out.insert(idx, x);
        proof {
            lemma_insert_at(recs_of(out_pre), x@, idx as int);
            assert(out@ == out_pre.insert(idx as int, x));
            assert forall|k: int| 0 <= k < recs_of(out@).len() implies recs_of(out@)[k]
                == recs_of(out_pre).insert(idx as int, x@)[k] by {
                assert(recs_of(out@)[k] == out@[k]@);
                out_pre.insert_ensures(idx as int, x);
                recs_of(out_pre).insert_ensures(idx as int, x@);
                if k < idx {
                    assert(out@[k] == out_pre[k]);
                } else if k == idx {
                    assert(out@[k] == x);
                } else {
                    assert(out@[k] == out_pre[k - 1]);
                    assert(recs_of(out_pre).insert(idx as int, x@)[k] == recs_of(out_pre)[k - 1]);
                }
            }
            assert(recs_of(out@) =~= recs_of(out_pre).insert(idx as int, x@));
            let done2 = done.push(x@);
            assert(done2.drop_last() =~= done);
            assert(done2.last() == x@);
            assert(sort_by_text(done2) == insert_by_text(sort_by_text(done), x@));
            done = done2;
        }
    }
    proof {
        assert(recs_of(records@) =~= Seq::<Rec>::empty());
        assert(done =~= all);
    }
    out
}

/// The single line `Count` mode emits: `<count> hits <pattern>`.
pub open spec fn count_line_spec(n: nat, pattern: Seq<char>) -> Seq<char> {
    dec_str(n) + (" hits ")@ + pattern
}

/// Renders the `Count` summary line.
pub fn count_line(n: usize, pattern: &str) -> (s: String)
    ensures
        s@ == count_line_spec(n as nat, pattern@),
{
    let mut s = String::new();
    let wide: u64 = n as u64;
    proof {
        assert(wide as nat == n as nat);
    }
    push_dec_u64(&mut s, wide);
    s.append(" hits ");
    s.append(pattern);
    proof {
        assert(s@ =~= count_line_spec(n as nat, pattern@));
    }
    s
}

/// Each record rendered as its printed line, in the order given.
fn print_lines(records: &Vec<LineInfo>) -> (out: Vec<String>)
    ensures
        out.deep_view() == recs_of(records@).map_values(|r: Rec| format_line_spec(r)),
{
    let mut out: Vec<String> = Vec::new();
    let mut i: usize = 0;
    proof {
        assert(out.deep_view() =~= recs_of(records@.subrange(0, 0)).map_values(
            |r: Rec| format_line_spec(r),
        ));
    }
    while i < records.len()
        invariant
            i <= records@.len(),
            out@.len() == i,
            forall|k: int|
                0 <= k < i ==> (#[trigger] out@[k])@ == format_line_spec(records@[k]@),
        decreases records@.len() - i,
    {
        let line: &LineInfo = slice_index_get(records.as_slice(), i);
        out.push(format_line(line));
        i = i + 1;
    }
    proof {
        assert forall|k: int| 0 <= k < out@.len() implies out.deep_view()[k] == recs_of(
            records@,
        ).map_values(|r: Rec| format_line_spec(r))[k] by {
            assert(out.deep_view()[k] == out@[k]@);
        }
        assert(out.deep_view() =~= recs_of(records@).map_values(|r: Rec| format_line_spec(r)));
    }
    out
}

/// What the sink emits under each mode, as lines of text.
pub open spec fn output_spec(mode: OutputMode, pattern: Seq<char>, recs: Seq<Rec>) -> Seq<
    Seq<char>,
> {
    match mode {
        OutputMode::Print => recs.map_values(|r: Rec| format_line_spec(r)),
        OutputMode::Count => seq![count_line_spec(recs.len(), pattern)],
        OutputMode::SortAndPrint => sort_by_text(recs).map_values(|r: Rec| format_line_spec(r)),
    }
}

/// Consumes the matched records and produces the run's output lines: each
/// record's line in arrival order under `Print`, the single summary line
/// under `Count`, and each record's line in stable text order under
/// `SortAndPrint`.
pub fn output_lines(mode: OutputMode, pattern: &str, records: Vec<LineInfo>) -> (out: Vec<String>)
    ensures
        out.deep_view() == output_spec(mode, pattern@, recs_of(records@)),
{
    match mode {
        OutputMode::Print => print_lines(&records),
        OutputMode::Count => {
            let line = count_line(records.len(), pattern);
            let out = vec![line];
            proof {
                assert(out.deep_view() =~= seq![count_line_spec(
                    recs_of(records@).len(),
                    pattern@,
                )]);
            }
            out
        },
        OutputMode::SortAndPrint => {
            let sorted = sort_records(records);
            print_lines(&sorted)
        },
    }
}

} // verus!

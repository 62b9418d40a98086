//! The source stage: every line of every file becomes one record, files in
//! list order, lines in file order, numbered from zero within each file.
//! Opening and reading the files is the caller's side; this stage turns what
//! was read into records.

use vstd::prelude::*;
use vstd::slice::slice_index_get;
use crate::record::{recs_of, LineInfo, Rec};

verus! {

/// The records of one file: one per line, numbered from zero.
pub open spec fn file_records(file: Seq<char>, lines: Seq<Seq<char>>) -> Seq<Rec> {
    Seq::new(lines.len(), |i: int| Rec { file: file, line: i as nat, text: lines[i] })
}

/// The records of a list of files, in list order.
pub open spec fn source_spec(files: Seq<Seq<char>>, contents: Seq<Seq<Seq<char>>>) -> Seq<Rec>
    recommends
        files.len() == contents.len(),
    decreases files.len(),
{
    if files.len() == 0 {
        Seq::empty()
    } else {
        source_spec(files.drop_last(), contents.drop_last()) + file_records(
            files.last(),
            contents.last(),
        )
    }
}

/// Builds every record the source emits for the given files, whose lines the
/// caller has already read.
pub fn read_files(files: &Vec<String>, contents: &Vec<Vec<String>>) -> (out: Vec<LineInfo>)
    requires
        files@.len() == contents@.len(),
    ensures
        recs_of(out@) == source_spec(files.deep_view(), contents.deep_view()),
{
    let ghost files_v = files.deep_view();
    let ghost contents_v = contents.deep_view();
    let mut out: Vec<LineInfo> = Vec::new();
    let mut i: usize = 0;
    proof {
        assert(recs_of(out@) =~= source_spec(
            files_v.subrange(0, 0),
            contents_v.subrange(0, 0),
        ));
    }
    while i < files.len()
        invariant
            i <= files@.len(),
            files@.len() == contents@.len(),
            files_v == files.deep_view(),
            contents_v == contents.deep_view(),
            files_v.len() == files@.len(),
            contents_v.len() == contents@.len(),
            recs_of(out@) == source_spec(
                files_v.subrange(0, i as int),
                contents_v.subrange(0, i as int),
            ),
        decreases files@.len() - i,
    {
        let filename: &String = slice_index_get(files.as_slice(), i);
        let lines: &Vec<String> = slice_index_get(contents.as_slice(), i);
        let ghost sofar = recs_of(out@);
        let mut j: usize = 0;
        proof {
            assert(filename@ == files_v[i as int]);
            assert(lines.deep_view() == contents_v[i as int]);
            assert(recs_of(out@) =~= sofar + file_records(
                files_v[i as int],
                lines.deep_view().subrange(0, 0),
            ));
        }
        while j < lines.len()
            invariant
                j <= lines@.len(),
                i < files_v.len(),
                i < contents_v.len(),
                filename@ == files_v[i as int],
                lines.deep_view() == contents_v[i as int],
                lines.deep_view().len() == lines@.len(),
                recs_of(out@) == sofar + file_records(
                    files_v[i as int],
                    lines.deep_view().subrange(0, j as int),
                ),
            decreases lines@.len() - j,
        {
            let text: &String = slice_index_get(lines.as_slice(), j);
            let rec = LineInfo { file: filename.clone(), line: j, text: text.clone() };
            proof {
                assert(text@ == lines.deep_view()[j as int]);
                assert(rec@ == Rec { file: files_v[i as int], line: j as nat, text: text@ });
            }
            let ghost out_pre = out@;
            out.push(rec);
            proof {
                let target = sofar + file_records(
                    files_v[i as int],
                    lines.deep_view().subrange(0, j + 1),
                );
                assert(out@ == out_pre.push(rec));
                assert(out@.len() == out_pre.len() + 1);
                assert(recs_of(out@).len() == out@.len());
                assert(recs_of(out_pre) == sofar + file_records(
                    files_v[i as int],
                    lines.deep_view().subrange(0, j as int),
                ));
                assert(recs_of(out_pre).len() == out_pre.len());
                assert(lines.deep_view().subrange(0, j as int).len() == j);
                assert(out_pre.len() == sofar.len() + j);
                assert(file_records(
                    files_v[i as int],
                    lines.deep_view().subrange(0, j + 1),
                ).len() == j + 1);
                assert(recs_of(out@).len() == target.len());
                assert forall|k: int| 0 <= k < recs_of(out@).len() implies recs_of(out@)[k]
                    == target[k] by {
                    assert(recs_of(out@)[k] == out@[k]@);
                    if k < out_pre.len() {
                        assert(out@[k] == out_pre[k]);
                        assert(recs_of(out_pre)[k] == out_pre[k]@);
                    } else {
                        assert(out@[k] == rec);
                    }
                }
                assert(recs_of(out@) =~= target);
            }
            j = j + 1;
        }
        proof {
            assert(lines.deep_view().subrange(0, lines@.len() as int) =~= lines.deep_view());
            assert(files_v.subrange(0, i + 1).drop_last() =~= files_v.subrange(0, i as int));
            assert(contents_v.subrange(0, i + 1).drop_last() =~= contents_v.subrange(0, i as int));
            assert(files_v.subrange(0, i + 1).last() == files_v[i as int]);
            assert(contents_v.subrange(0, i + 1).last() == contents_v[i as int]);
        }
        i = i + 1;
    }
    proof {
        assert(files_v.subrange(0, files_v.len() as int) =~= files_v);
        assert(contents_v.subrange(0, contents_v.len() as int) =~= contents_v);
    }
    out
}

} // verus!

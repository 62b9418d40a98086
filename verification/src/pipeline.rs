//! The whole pipeline, end to end: source, filter and sink composed over the
//! lines the caller has read. What each run prints is a single function of
//! the configuration and the file contents; the statements at the end pin
//! down order preservation, the count, and that reruns repeat themselves.

use vstd::prelude::*;
use crate::config::{Options, OutputMode};
use crate::filter::filter_lines;
use crate::matcher::{match_spec, regex_valid, Matcher, PatternError};
use crate::record::{format_line_spec, Rec};
use crate::sink::{count_line_spec, output_lines, output_spec};
use crate::source::{read_files, source_spec};

verus! {

/// Every line the run prints: the source's records, those that match kept in
/// order, rendered under the output mode.
pub open spec fn pipeline_spec(
    files: Seq<Seq<char>>,
    contents: Seq<Seq<Seq<char>>>,
    pattern: Seq<char>,
    use_regex: bool,
    mode: OutputMode,
) -> Seq<Seq<char>> {
    output_spec(
        mode,
        pattern,
        source_spec(files, contents).filter(|r: Rec| match_spec(use_regex, pattern, r.text)),
    )
}

/// Runs the three stages over the given file contents and returns the output
/// lines. An invalid regular expression is rejected before any line is
/// looked at; it is the only error.
pub fn run(options: &Options, contents: Vec<Vec<String>>) -> (r: Result<Vec<String>, PatternError>)
    requires
        options.files@.len() == contents@.len(),
    ensures
        r is Ok <==> (options.regex ==> regex_valid(options.pattern@)),
        match r {
            Ok(out) => out.deep_view() == pipeline_spec(
                options.files.deep_view(),
                contents.deep_view(),
                options.pattern@,
                options.regex,
                options.output_mode,
            ),
            Err(e) => e == PatternError::InvalidRegex,
        },
{
    let matcher = match Matcher::new(options.pattern.as_str(), options.regex) {
        Ok(m) => m,
        Err(e) => {
            return Err(e);
        },
    };
    let records = read_files(&options.files, &contents);
    let matched = filter_lines(&matcher, records);
    let out = output_lines(options.output_mode, options.pattern.as_str(), matched);
    proof {
        let p1 = |r: Rec| matcher.spec_matches(r.text);
        let p2 = |r: Rec| match_spec(options.regex, options.pattern@, r.text);
        assert forall|r: Rec| #[trigger] p1(r) == p2(r) by {
            assert(p1(r) == match_spec(matcher.is_regex(), matcher.pattern_view(), r.text));
        }
        assert(p1 =~= p2);
    }
    Ok(out)
}

/// A filter that lets everything through changes nothing.
pub proof fn lemma_filter_all(s: Seq<Rec>, p: spec_fn(Rec) -> bool)
    requires
        forall|r: Rec| #[trigger] p(r),
    ensures
        s.filter(p) == s,
    decreases s.len(),
{
    reveal(Seq::filter);
    if s.len() > 0 {
        lemma_filter_all(s.drop_last(), p);
        assert(s.filter(p) =~= s);
    } else {
        assert(s.filter(p) =~= s);
    }
}

/// Order preservation: under a pattern that matches every line, `Print` mode
/// emits one line per record, in file order and line order.
pub proof fn lemma_order_preservation(
    files: Seq<Seq<char>>,
    contents: Seq<Seq<Seq<char>>>,
    pattern: Seq<char>,
    use_regex: bool,
)
    requires
        files.len() == contents.len(),
        forall|t: Seq<char>| #[trigger] match_spec(use_regex, pattern, t),
    ensures
        pipeline_spec(files, contents, pattern, use_regex, OutputMode::Print) == source_spec(
            files,
            contents,
        ).map_values(|r: Rec| format_line_spec(r)),
{
    lemma_filter_all(source_spec(files, contents), |r: Rec| match_spec(use_regex, pattern, r.text));
}

/// Count correctness: `Count` mode emits exactly one line, and that line
/// reports the number of matching records and the pattern.
pub proof fn lemma_count_correctness(
    files: Seq<Seq<char>>,
    contents: Seq<Seq<Seq<char>>>,
    pattern: Seq<char>,
    use_regex: bool,
)
    requires
        files.len() == contents.len(),
    ensures
        pipeline_spec(files, contents, pattern, use_regex, OutputMode::Count).len() == 1,
        pipeline_spec(files, contents, pattern, use_regex, OutputMode::Count)[0] == count_line_spec(
            source_spec(files, contents).filter(
                |r: Rec| match_spec(use_regex, pattern, r.text),
            ).len(),
            pattern,
        ),
{
}

/// Round-trip idempotence: the output is a function of the configuration and
/// the file contents alone, so a second run over unchanged inputs prints
/// exactly the same lines.
pub proof fn lemma_round_trip(
    files1: Seq<Seq<char>>,
    contents1: Seq<Seq<Seq<char>>>,
    pattern1: Seq<char>,
    use_regex1: bool,
    mode1: OutputMode,
    files2: Seq<Seq<char>>,
    contents2: Seq<Seq<Seq<char>>>,
    pattern2: Seq<char>,
    use_regex2: bool,
    mode2: OutputMode,
)
    requires
        files1 == files2,
        contents1 == contents2,
        pattern1 == pattern2,
        use_regex1 == use_regex2,
        mode1 == mode2,
    ensures
        pipeline_spec(files1, contents1, pattern1, use_regex1, mode1) == pipeline_spec(
            files2,
            contents2,
            pattern2,
            use_regex2,
            mode2,
        ),
{
}

} // verus!

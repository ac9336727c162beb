//! What an output layer needs from a list of results.

use crate::scan::result::{ResultView, SearchResult};
use crate::utils::text::{joined, same_text};
use vstd::prelude::*;

verus! {

/// How results are printed.
#[derive(Debug, Clone, Copy, PartialEq, Eq, Structural)]
pub enum OutputFormat {
    /// Two lists, found and not found, and the totals.
    Text,
    /// One JSON array.
    Json,
    /// Comma-separated lines under a header line.
    Csv,
}

/// The format that a word names. Any word but `json` and `csv` means text.
pub open spec fn format_named(word: Seq<char>) -> OutputFormat {
    if word == "json"@ {
        OutputFormat::Json
    } else if word == "csv"@ {
        OutputFormat::Csv
    } else {
        OutputFormat::Text
    }
}

/// The format that a word names.
pub fn output_format(word: &str) -> (r: OutputFormat)
    ensures
        r == format_named(word@),
{
    if same_text(word, "json") {
        OutputFormat::Json
    } else if same_text(word, "csv") {
        OutputFormat::Csv
    } else {
        OutputFormat::Text
    }
}

/// The header line of the comma-separated output.
pub open spec fn csv_header() -> Seq<char> {
    "site,username,exists,url"@
}

/// The line of one result in the comma-separated output: site, username,
/// finding and address, the address empty where there is none.
pub open spec fn csv_line_view(result: ResultView) -> Seq<char> {
    result.site + ","@ + result.username + ","@ + (if result.exists {
        "true"@
    } else {
        "false"@
    }) + ","@ + (match result.url {
        Some(url) => url,
        None => Seq::empty(),
    })
}

/// The line of one result in the comma-separated output.
pub fn csv_line(result: &SearchResult) -> (r: String)
    ensures
        r@ == csv_line_view(result@),
{
    let word = if result.exists {
        "true"
    } else {
        "false"
    };
    let line = joined(result.site.as_str(), ",");
    let line = joined(line.as_str(), result.username.as_str());
    let line = joined(line.as_str(), ",");
    let line = joined(line.as_str(), word);
    let line = joined(line.as_str(), ",");
    match &result.url {
        Some(url) => joined(line.as_str(), url.as_str()),
        None => {
            proof {
                assert(line@ + Seq::<char>::empty() =~= line@);
            }
            line
        },
    }
}

/// The lines of the comma-separated output: the header, then one line for
/// each result, in order.
pub fn csv_lines(results: &[SearchResult]) -> (r: Vec<String>)
    ensures
        r@.len() == results@.len() + 1,
        r@[0]@ == csv_header(),
        forall|k: int|
            0 <= k < results@.len() ==> (#[trigger] r@[k + 1])@ == csv_line_view(results@[k]@),
{
    let mut lines: Vec<String> = Vec::new();
    lines.push("site,username,exists,url".to_owned());
    let mut i: usize = 0;
    while i < results.len()
        invariant
            i <= results@.len(),
            lines@.len() == i + 1,
            lines@[0]@ == csv_header(),
            forall|k: int|
                0 <= k < i ==> (#[trigger] lines@[k + 1])@ == csv_line_view(results@[k]@),
        decreases results@.len() - i,
    {
        lines.push(csv_line(&results[i]));
        i += 1;
    }
    lines
}

/// The test that a result has the given finding.
pub open spec fn with_finding<'a>(exists: bool) -> spec_fn(&'a SearchResult) -> bool {
    |r: &SearchResult| r.exists == exists
}

/// The results, each as a reference, in the same order.
pub open spec fn result_refs<'a>(results: Seq<SearchResult>) -> Seq<&'a SearchResult> {
    Seq::new(results.len(), |i: int| &results[i])
}

/// The results with the given finding, in order.
pub fn results_with(results: &[SearchResult], exists: bool) -> (r: Vec<&SearchResult>)
    ensures
        r@ == result_refs(results@).filter(with_finding(exists)),
{
    let ghost all = result_refs(results@);
    let ghost keep = with_finding(exists);
    let mut out: Vec<&SearchResult> = Vec::new();
    proof {
        reveal(Seq::filter);
        assert(all.take(0).filter(keep) =~= Seq::<&SearchResult>::empty());
    }
    let mut i: usize = 0;
    while i < results.len()
        invariant
            i <= results@.len(),
            all == result_refs(results@),
            keep == with_finding(exists),
            out@ == all.take(i as int).filter(keep),
        decreases results@.len() - i,
    {
        let result = &results[i];
        proof {
            assert(all.take(i + 1) =~= all.take(i as int).push(result));
            all.take(i as int).lemma_filter_push(result, keep);
        }
        if result.exists == exists {
            out.push(result);
        }
        i += 1;
    }
    proof {
        assert(all.take(i as int) =~= all);
    }
    out
}

} // verus!

//! Measures of a project's sources.

use vstd::prelude::*;
use vstd::string::*;
use crate::text::{first_at, to_chars, find_char_from};

verus! {

/// Collects measures of a project.
#[derive(Debug, Clone)]
pub struct AnalyticsCollector;

/// The number of lines of a text: each line feed ends a line, and what
/// follows the last line feed is a line if it is not empty.
pub open spec fn line_count(content: Seq<char>) -> nat
    decreases content.len(),
{
    let n = first_at(content, '\n');
    if content.len() == 0 {
        0
    } else if n < 0 || n >= content.len() {
        1
    } else {
        1 + line_count(content.subrange(n + 1, content.len() as int))
    }
}

/// The lines of all the texts together.
pub open spec fn total_lines(contents: Seq<String>) -> nat
    decreases contents.len(),
{
    if contents.len() == 0 {
        0
    } else {
        total_lines(contents.drop_last()) + line_count(contents.last()@)
    }
}

impl AnalyticsCollector {
    /// The number of lines of a source text.
    pub fn count_lines(content: &str) -> (r: usize)
        ensures
            r == line_count(content@),
    {
        let h = to_chars(content);
        let n: usize = h.len();
        let mut count: usize = 0;
        let mut i: usize = 0;
        assert(h@.subrange(0, n as int) =~= h@);
        while i < n
            invariant
                i <= n,
                n == h.len(),
                count <= i,
                count + line_count(h@.subrange(i as int, n as int)) == line_count(h@),
            decreases n - i,
        {
            let ghost rest = h@.subrange(i as int, n as int);
            let end = find_char_from(&h, i, '\n');
            count += 1;
            if end >= n {
                i = n;
            } else {
                proof {
                    assert(rest.subrange(end - i + 1, rest.len() as int) =~= h@.subrange(
                        end + 1,
                        n as int,
                    ));
                }
                i = end + 1;
            }
            proof {
                assert(h@.subrange(n as int, n as int).len() == 0);
            }
        }
        proof {
            assert(h@.subrange(n as int, n as int).len() == 0);
        }
        count
    }

    /// The lines of code of a project: the lines of all its source texts
    /// together, as far as the machine's word can count them.
    pub fn lines_of_code(sources: &Vec<String>) -> (r: Option<usize>)
        ensures
            match r {
                Some(n) => n == total_lines(sources@),
                None => total_lines(sources@) > usize::MAX,
            },
    {
        let mut total: usize = 0;
        let mut i: usize = 0;
        assert(sources@.subrange(0, 0) =~= Seq::<String>::empty());
        while i < sources.len()
            invariant
                i <= sources@.len(),
                total == total_lines(sources@.subrange(0, i as int)),
            decreases sources@.len() - i,
        {
            proof {
                let next = sources@.subrange(0, i + 1);
                assert(next.drop_last() =~= sources@.subrange(0, i as int));
                assert(next.last() == sources@[i as int]);
                lemma_total_lines_grows(sources@, i + 1);
            }
            let lines = AnalyticsCollector::count_lines(sources[i].as_str());
            if lines > usize::MAX - total {
                return None;
            }
            total = total + lines;
            i += 1;
        }
        assert(sources@.subrange(0, i as int) =~= sources@);
        Some(total)
    }
}

/// The lines of the first texts never outnumber the lines of all.
proof fn lemma_total_lines_grows(contents: Seq<String>, k: int)
    requires
        0 <= k <= contents.len(),
    ensures
        total_lines(contents.subrange(0, k)) <= total_lines(contents),
    decreases contents.len() - k,
{
    if k == contents.len() {
        assert(contents.subrange(0, k) =~= contents);
    } else {
        lemma_total_lines_grows(contents, k + 1);
        assert(contents.subrange(0, k + 1).drop_last() =~= contents.subrange(0, k));
    }
}

} // verus!

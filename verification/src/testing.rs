//! Reports of test runs.

use vstd::prelude::*;
use vstd::string::*;
use crate::text::{has_substring, occurs_at, is_space, first_at, to_chars, chars_contain, chars_match_at, chars_equal, char_is_space, slice_chars, find_char_from};

verus! {

/// The outcome of a test run.
#[derive(Debug, Clone)]
pub struct TestReport {
    /// Total number of tests
    pub total: usize,
    /// Number of passed tests
    pub passed: usize,
    /// Number of failed tests
    pub failed: usize,
    /// How long the run took, in whole seconds
    pub duration_secs: u64,
    /// Test output
    pub output: String,
}

impl TestReport {
    /// The report of a run in which nothing ran.
    pub fn new() -> (r: Self)
        ensures
            r.total == 0,
            r.passed == 0,
            r.failed == 0,
            r.duration_secs == 0,
            r.output@ == Seq::<char>::empty(),
    {
        TestReport { total: 0, passed: 0, failed: 0, duration_secs: 0, output: String::new() }
    }

    /// Whether no test failed.
    pub fn all_passed(&self) -> (r: bool)
        ensures
            r == (self.failed == 0),
    {
        self.failed == 0
    }
}

impl Default for TestReport {
    fn default() -> (r: Self)
        ensures
            r.total == 0,
            r.passed == 0,
            r.failed == 0,
            r.duration_secs == 0,
            r.output@ == Seq::<char>::empty(),
    {
        TestReport::new()
    }
}


/// Counts of passed and failed tests: `(passed, failed)`.
pub type Tally = (nat, nat);

/// Whether `c` is one of the digits `0` to `9`.
pub open spec fn is_digit(c: char) -> bool {
    48 <= c as u32 <= 57
}

/// Whether `s` holds digits only.
pub open spec fn all_digits(s: Seq<char>) -> bool {
    forall|i: int| 0 <= i < s.len() ==> is_digit(#[trigger] s[i])
}

/// The number that the digits `s` write in base ten.
pub open spec fn digits_value(s: Seq<char>) -> nat
    decreases s.len(),
{
    if s.len() == 0 {
        0
    } else {
        digits_value(s.drop_last()) * 10 + ((s.last() as u32 - 48) as nat)
    }
}

/// The count that a word writes: one or more digits, with or without a plus
/// sign before them, whose number fits the machine's word. Any other word
/// writes no count.
pub open spec fn count_of(w: Seq<char>) -> Option<nat> {
    let body = if w.len() > 0 && w[0] == '+' {
        w.subrange(1, w.len() as int)
    } else {
        w
    };
    if body.len() > 0 && all_digits(body) && digits_value(body) <= usize::MAX {
        Some(digits_value(body))
    } else {
        None
    }
}

/// The number of characters at the start of `s` before its first white space.
pub open spec fn word_len(s: Seq<char>) -> int
    decreases s.len(),
{
    if s.len() == 0 || is_space(s[0]) {
        0
    } else {
        1 + word_len(s.subrange(1, s.len() as int))
    }
}

/// The words of `s`: its longest runs of characters that are not white space.
pub open spec fn words(s: Seq<char>) -> Seq<Seq<char>>
    decreases s.len(),
{
    if s.len() == 0 {
        Seq::empty()
    } else if is_space(s[0]) {
        words(s.subrange(1, s.len() as int))
    } else {
        let n = word_len(s);
        if n <= 0 || n > s.len() {
            Seq::empty()
        } else {
            seq![s.subrange(0, n)] + words(s.subrange(n, s.len() as int))
        }
    }
}

/// The number of occurrences of `pat` in `s` that do not overlap, counted
/// from the left.
pub open spec fn occurrences(s: Seq<char>, pat: Seq<char>) -> nat
    decreases s.len(),
{
    if pat.len() == 0 || s.len() < pat.len() {
        0
    } else if occurs_at(s, pat, 0) {
        1 + occurrences(s.subrange(pat.len() as int, s.len() as int), pat)
    } else {
        occurrences(s.subrange(1, s.len() as int), pat)
    }
}

/// Whether a line reports the result of a test run that went well.
pub open spec fn is_result_line(line: Seq<char>) -> bool {
    has_substring(line, "test result:"@) && has_substring(line, "ok."@)
}

/// The counts after the word `word` that follows the word `number` was
/// read: the word `passed` or `failed`, with or without a semicolon, takes
/// the count written before it, if one is written there.
pub open spec fn after_word(t: Tally, number: Seq<char>, word: Seq<char>) -> Tally {
    if word == "passed"@ || word == "passed;"@ {
        match count_of(number) {
            Some(c) => (c, t.1),
            None => t,
        }
    } else if word == "failed"@ || word == "failed;"@ {
        match count_of(number) {
            Some(c) => (t.0, c),
            None => t,
        }
    } else {
        t
    }
}

/// The counts after the first `upto` words of a result line were read.
pub open spec fn after_words(t: Tally, parts: Seq<Seq<char>>, upto: int) -> Tally
    decreases upto,
{
    if upto <= 1 {
        t
    } else {
        after_word(after_words(t, parts, upto - 1), parts[upto - 2], parts[upto - 1])
    }
}

/// The counts after one line of output was read: a result line sets the
/// counts it names, and a line that holds `FAILED` adds one failure.
pub open spec fn tally_line(t: Tally, line: Seq<char>) -> Tally {
    let counted = if is_result_line(line) {
        after_words(t, words(line), words(line).len() as int)
    } else {
        t
    };
    if has_substring(line, "FAILED"@) {
        (counted.0, counted.1 + 1)
    } else {
        counted
    }
}

/// The counts after the whole output was read, line by line.
pub open spec fn tally(t: Tally, output: Seq<char>) -> Tally
    decreases output.len(),
{
    let n = first_at(output, '\n');
    if n < 0 || n >= output.len() {
        tally_line(t, output)
    } else {
        tally(tally_line(t, output.subrange(0, n)), output.subrange(n + 1, output.len() as int))
    }
}

/// Whether the number of failures fits the machine's word after every line
/// of the output.
pub open spec fn tally_fits(t: Tally, output: Seq<char>) -> bool
    decreases output.len(),
{
    let n = first_at(output, '\n');
    if n < 0 || n >= output.len() {
        tally_line(t, output).1 <= usize::MAX
    } else {
        tally_line(t, output.subrange(0, n)).1 <= usize::MAX && tally_fits(
            tally_line(t, output.subrange(0, n)),
            output.subrange(n + 1, output.len() as int),
        )
    }
}

/// The views of a list of words.
pub open spec fn word_views(v: Seq<Vec<char>>) -> Seq<Seq<char>> {
    v.map_values(|w: Vec<char>| w@)
}

/// Digits written behind digits only make the number larger.
proof fn lemma_digits_value_grows(s: Seq<char>, k: int)
    requires
        0 <= k <= s.len(),
    ensures
        digits_value(s.subrange(0, k)) <= digits_value(s),
    decreases s.len() - k,
{
    if k == s.len() {
        assert(s.subrange(0, k) =~= s);
    } else {
        lemma_digits_value_grows(s, k + 1);
        assert(s.subrange(0, k + 1).drop_last() =~= s.subrange(0, k));
    }
}

/// The count that a word writes, if it writes one.
pub fn parse_count(w: &Vec<char>) -> (r: Option<usize>)
    ensures
        match r {
            Some(c) => count_of(w@) == Some(c as nat),
            None => count_of(w@) is None,
        },
{
    let start: usize = if w.len() > 0 && w[0] == '+' {
        1
    } else {
        0
    };
    let ghost body = w@.subrange(start as int, w.len() as int);
    assert(start == 0 ==> body =~= w@);
    if start >= w.len() {
        return None;
    }
    let mut v: usize = 0;
    let mut i: usize = start;
    while i < w.len()
        invariant
            start <= i <= w.len(),
            body == w@.subrange(start as int, w.len() as int),
            body == (if w@.len() > 0 && w@[0] == '+' {
                w@.subrange(1, w@.len() as int)
            } else {
                w@
            }),
            all_digits(body.subrange(0, i - start)),
            v == digits_value(body.subrange(0, i - start)),
        decreases w.len() - i,
    {
        let c: char = w[i];
        let n: u32 = c as u32;
        assert(body[i - start] == w@[i as int]);
        if n < 48 || n > 57 {
            assert(!is_digit(body[i - start]));
            return None;
        }
        let d: usize = (n - 48) as usize;
        let ghost next = body.subrange(0, i + 1 - start);
        proof {
            assert(next.drop_last() =~= body.subrange(0, i - start));
            assert(next.last() == w@[i as int]);
            assert(digits_value(next) == v * 10 + d);
            assert forall|k: int| 0 <= k < next.len() implies is_digit(#[trigger] next[k]) by {
                if k < i - start {
                    assert(body.subrange(0, i - start)[k] == next[k]);
                }
            }
        }
        if v > (usize::MAX - d) / 10 {
            proof {
                lemma_digits_value_grows(body, i + 1 - start);
            }
            return None;
        }
        v = v * 10 + d;
        i += 1;
    }
    assert(body.subrange(0, i - start) =~= body);
    Some(v)
}

/// The words of `v`.
pub fn split_words(v: &Vec<char>) -> (r: Vec<Vec<char>>)
    ensures
        word_views(r@) == words(v@),
{
    let n: usize = v.len();
    let mut out: Vec<Vec<char>> = Vec::new();
    let mut i: usize = 0;
    proof {
        assert(v@.subrange(0, n as int) =~= v@);
        assert(word_views(out@) + words(v@) =~= words(v@));
    }
    while i < n
        invariant
            i <= n,
            n == v.len(),
            word_views(out@) + words(v@.subrange(i as int, n as int)) == words(v@),
        decreases n - i,
    {
        let ghost rest = v@.subrange(i as int, n as int);
        let ghost before = word_views(out@);
        assert(rest[0] == v@[i as int]);
        if char_is_space(v[i]) {
            assert(rest.subrange(1, rest.len() as int) =~= v@.subrange(i + 1, n as int));
            i += 1;
        } else {
            let mut j: usize = i + 1;
            proof {
                assert(rest.subrange(1, rest.len() as int) =~= v@.subrange(i + 1, n as int));
            }
            while j < n && !char_is_space(v[j])
                invariant
                    i < j <= n,
                    n == v.len(),
                    (j - i) + word_len(v@.subrange(j as int, n as int)) == word_len(
                        v@.subrange(i as int, n as int),
                    ),
                decreases n - j,
            {
                proof {
                    let cur = v@.subrange(j as int, n as int);
                    assert(cur[0] == v@[j as int]);
                    assert(cur.subrange(1, cur.len() as int) =~= v@.subrange(j + 1, n as int));
                }
                j += 1;
            }
            proof {
                let cur = v@.subrange(j as int, n as int);
                if j < n {
                    assert(cur[0] == v@[j as int]);
                }
                assert(word_len(cur) == 0);
                assert(word_len(rest) == j - i);
                assert(rest.subrange(0, j - i) =~= v@.subrange(i as int, j as int));
                assert(rest.subrange(j - i, rest.len() as int) =~= v@.subrange(j as int, n as int));
            }
            let word = slice_chars(v, i, j);
            let ghost wv = word@;
            out.push(word);
            proof {
                assert(word_views(out@) =~= before.push(wv));
                assert(word_views(out@) + words(v@.subrange(j as int, n as int)) =~= before + (
                seq![wv] + words(v@.subrange(j as int, n as int))));
            }
            i = j;
        }
    }
    proof {
        assert(v@.subrange(n as int, n as int) =~= Seq::<char>::empty());
        assert(word_views(out@) + Seq::<Seq<char>>::empty() =~= word_views(out@));
    }
    out
}

/// The number of occurrences of `p` in `h` that do not overlap.
pub fn count_occurrences(h: &Vec<char>, p: &Vec<char>) -> (r: usize)
    ensures
        r == occurrences(h@, p@),
{
    if p.len() == 0 {
        return 0;
    }
    let n: usize = h.len();
    let mut count: usize = 0;
    let mut i: usize = 0;
    assert(h@.subrange(0, n as int) =~= h@);
    while i < n
        invariant
            i <= n,
            n == h.len(),
            p.len() > 0,
            count <= i,
            count + occurrences(h@.subrange(i as int, n as int), p@) == occurrences(h@, p@),
        decreases n - i,
    {
        let ghost rest = h@.subrange(i as int, n as int);
        if chars_match_at(h, p, i) {
            proof {
                assert(rest.subrange(0, p.len() as int) =~= h@.subrange(i as int, i + p.len()));
                assert(occurs_at(rest, p@, 0));
                assert(rest.subrange(p.len() as int, rest.len() as int) =~= h@.subrange(
                    i + p.len(),
                    n as int,
                ));
            }
            count += 1;
            i += p.len();
        } else {
            proof {
                if rest.len() >= p.len() {
                    assert(rest.subrange(0, p.len() as int) =~= h@.subrange(
                        i as int,
                        i + p.len(),
                    ));
                    assert(!occurs_at(rest, p@, 0));
                }
                assert(rest.subrange(1, rest.len() as int) =~= h@.subrange(i + 1, n as int));
                if rest.len() < p.len() {
                    lemma_short_has_none(h@.subrange(i + 1, n as int), p@);
                }
            }
            i += 1;
        }
    }
    assert(h@.subrange(n as int, n as int) =~= Seq::<char>::empty());
    count
}

/// A text shorter than the pattern holds no occurrence of it.
proof fn lemma_short_has_none(s: Seq<char>, pat: Seq<char>)
    requires
        s.len() < pat.len(),
    ensures
        occurrences(s, pat) == 0,
{
}

/// The file name of the scaffold of the test called `name`.
pub open spec fn test_scaffold_file(name: Seq<char>) -> Seq<char> {
    name + "_test.rs"@
}

/// The content of the scaffold of the test called `name`.
pub open spec fn test_scaffold_text(name: Seq<char>) -> Seq<char> {
    "//! Tests for "@ + name + "\n\n#[test]\nfn test_"@ + name
        + "() {\n    // TODO: Implement test\n    assert!(true);\n}\n\n#[test]\nfn test_"@ + name
        + "_error_case() {\n    // TODO: Implement error case test\n    assert!(true);\n}\n"@
}

/// Runs tests and reads their output.
#[derive(Debug, Clone)]
pub struct TestRunner;

impl TestRunner {
    /// The file name and the content of the scaffold of the test called `name`.
    pub fn generate_test_scaffold(name: &str) -> (r: (String, String))
        ensures
            r.0@ == test_scaffold_file(name@),
            r.1@ == test_scaffold_text(name@),
    {
        let mut file = String::from_str(name);
        file.append("_test.rs");
        let mut text = String::from_str("//! Tests for ");
        text.append(name);
        text.append("\n\n#[test]\nfn test_");
        text.append(name);
        text.append("() {\n    // TODO: Implement test\n    assert!(true);\n}\n\n#[test]\nfn test_");
        text.append(name);
        text.append("_error_case() {\n    // TODO: Implement error case test\n    assert!(true);\n}\n");
        (file, text)
    }

    /// Reads one line of test output into the counts; nothing where the
    /// number of failures would not fit the machine's word.
    fn read_line(line: &Vec<char>, passed: usize, failed: usize) -> (r: Option<(usize, usize)>)
        ensures
            match r {
                Some(t) => (t.0 as nat, t.1 as nat) == tally_line(
                    (passed as nat, failed as nat),
                    line@,
                ),
                None => tally_line((passed as nat, failed as nat), line@).1 > usize::MAX,
            },
    {
        let mut p: usize = passed;
        let mut f: usize = failed;
        let result_mark = to_chars("test result:");
        let ok_mark = to_chars("ok.");
        let failed_mark = to_chars("FAILED");
        let ghost start: Tally = (passed as nat, failed as nat);
        if chars_contain(line, &result_mark) && chars_contain(line, &ok_mark) {
            let parts = split_words(line);
            let w_passed = to_chars("passed");
            let w_passed_semi = to_chars("passed;");
            let w_failed = to_chars("failed");
            let w_failed_semi = to_chars("failed;");
            let mut i: usize = 1;
            while i < parts.len()
                invariant
                    1 <= i,
                    i <= parts@.len() || i == 1,
                    word_views(parts@) == words(line@),
                    w_passed@ == "passed"@,
                    w_passed_semi@ == "passed;"@,
                    w_failed@ == "failed"@,
                    w_failed_semi@ == "failed;"@,
                    (p as nat, f as nat) == after_words(
                        start,
                        words(line@),
                        if i <= parts@.len() {
                            i as int
                        } else {
                            parts@.len() as int
                        },
                    ),
                decreases parts@.len() - i,
            {
                assert(word_views(parts@)[i as int] == parts@[i as int]@);
                assert(word_views(parts@)[i - 1] == parts@[i - 1]@);
                if chars_equal(&parts[i], &w_passed) || chars_equal(&parts[i], &w_passed_semi) {
                    match parse_count(&parts[i - 1]) {
                        Some(c) => {
                            p = c;
                        },
                        None => {},
                    }
                } else if chars_equal(&parts[i], &w_failed) || chars_equal(
                    &parts[i],
                    &w_failed_semi,
                ) {
                    match parse_count(&parts[i - 1]) {
                        Some(c) => {
                            f = c;
                        },
                        None => {},
                    }
                }
                i += 1;
            }
            assert(word_views(parts@).len() == parts@.len());
        }
        if chars_contain(line, &failed_mark) {
            if f == usize::MAX {
                return None;
            }
            f = f + 1;
        }
        Some((p, f))
    }

    /// The counts of passed and failed tests that the output names; nothing
    /// where the number of failures does not fit the machine's word after
    /// some line.
    fn scan(h: &Vec<char>) -> (r: Option<(usize, usize)>)
        ensures
            r is Some <==> tally_fits((0, 0), h@),
            r is Some ==> (r->Some_0.0 as nat, r->Some_0.1 as nat) == tally((0, 0), h@),
    {
        let n: usize = h.len();
        let mut passed: usize = 0;
        let mut failed: usize = 0;
        let mut i: usize = 0;
        let mut done = false;
        assert(h@.subrange(0, n as int) =~= h@);
        while !done
            invariant
                i <= n,
                n == h.len(),
                !done ==> tally((passed as nat, failed as nat), h@.subrange(i as int, n as int))
                    == tally((0, 0), h@),
                !done ==> tally_fits(
                    (passed as nat, failed as nat),
                    h@.subrange(i as int, n as int),
                ) == tally_fits((0, 0), h@),
                done ==> (passed as nat, failed as nat) == tally((0, 0), h@),
                done ==> tally_fits((0, 0), h@),
            decreases n - i + (if done { 0int } else { 1int }),
        {
            let ghost rest = h@.subrange(i as int, n as int);
            let end = find_char_from(h, i, '\n');
            let line = slice_chars(h, i, end);
            proof {
                assert(line@ =~= rest.subrange(0, end - i));
                if end >= n {
                    assert(line@ =~= rest);
                } else {
                    assert(rest.subrange(end - i + 1, rest.len() as int) =~= h@.subrange(
                        end + 1,
                        n as int,
                    ));
                }
            }
            match Self::read_line(&line, passed, failed) {
                Some(t) => {
                    passed = t.0;
                    failed = t.1;
                },
                None => {
                    return None;
                },
            }
            if end >= n {
                done = true;
            } else {
                i = end + 1;
            }
        }
        Some((passed, failed))
    }

    /// Whether `parse_test_output` can read `output`: the counts that it
    /// names fit the machine's word, after every line and together.
    pub fn counts_fit(output: &str) -> (r: bool)
        ensures
            r == (tally_fits((0, 0), output@) && tally((0, 0), output@).0 + tally(
                (0, 0),
                output@,
            ).1 <= usize::MAX),
    {
        let h = to_chars(output);
        match Self::scan(&h) {
            Some(t) => t.0 <= usize::MAX - t.1,
            None => false,
        }
    }

    /// Reads the output of a test run into `report`. A line that reports a
    /// run gone well sets the counts of passed and failed tests that it
    /// names; every line that holds `FAILED` adds one failure. Where no test
    /// is counted in this way, every `test ` in the output counts as one
    /// passed test.
    pub fn parse_test_output(output: &str, report: &mut TestReport)
        requires
            tally_fits((0, 0), output@),
            tally((0, 0), output@).0 + tally((0, 0), output@).1 <= usize::MAX,
        ensures
            final(report).duration_secs == old(report).duration_secs,
            final(report).output == old(report).output,
            tally((0, 0), output@).0 + tally((0, 0), output@).1 > 0 ==> {
                &&& final(report).passed == tally((0, 0), output@).0
                &&& final(report).failed == tally((0, 0), output@).1
                &&& final(report).total == tally((0, 0), output@).0 + tally((0, 0), output@).1
            },
            tally((0, 0), output@).0 + tally((0, 0), output@).1 == 0 ==> {
                &&& final(report).total == occurrences(output@, "test "@)
                &&& final(report).passed == final(report).total
                &&& final(report).failed == 0
            },
    {
        let h = to_chars(output);
        let counts = Self::scan(&h);
        let (passed, failed) = match counts {
            Some(t) => t,
            None => (0, 0),
        };
        report.passed = passed;
        report.failed = failed;
        report.total = passed + failed;
        if report.total == 0 {
            let mark = to_chars("test ");
            report.total = count_occurrences(&h, &mark);
            report.passed = report.total - failed;
        }
    }
}

} // verus!

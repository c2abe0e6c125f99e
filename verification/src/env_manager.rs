//! Environment variables of a build configuration: a list of named values,
//! read from the text of `.env` files and substituted into other text.

use vstd::prelude::*;
use vstd::string::*;
use crate::error::ForgeKitError;
use crate::text::{same_text, join2, to_chars, from_chars, append_chars, chars_replace, replaced, trimmed_text, first_at, chars_trim, find_char, find_char_from, slice_chars, chars_equal};

verus! {

/// One variable as a pair of plain values: its name and its value.
pub type Binding = (Seq<char>, Seq<char>);

/// Whether `c` is a letter or a number as Unicode classes them.
pub uninterp spec fn unicode_alphanumeric(c: char) -> bool;

/// Whether a variable called `key` is set.
pub open spec fn is_set(vars: Seq<Binding>, key: Seq<char>) -> bool {
    exists|i: int| 0 <= i < vars.len() && vars[i].0 == key
}

/// A position at which `key` is set, where there is one.
pub open spec fn var_slot(vars: Seq<Binding>, key: Seq<char>) -> int {
    choose|i: int| 0 <= i < vars.len() && vars[i].0 == key
}

/// The value of the variable `key`, if it is set.
pub open spec fn value_of(vars: Seq<Binding>, key: Seq<char>) -> Option<Seq<char>> {
    if is_set(vars, key) {
        Some(vars[var_slot(vars, key)].1)
    } else {
        None
    }
}

/// No variable is set twice.
pub open spec fn distinct_vars(vars: Seq<Binding>) -> bool {
    forall|i: int, j: int| 0 <= i < j < vars.len() ==> vars[i].0 != vars[j].0
}

/// The variables after setting `key` to `value`: a variable that is set
/// already gets the new value in place, a new one is added at the end.
pub open spec fn with_var(vars: Seq<Binding>, key: Seq<char>, value: Seq<char>) -> Seq<Binding> {
    if is_set(vars, key) {
        vars.update(var_slot(vars, key), (key, value))
    } else {
        vars.push((key, value))
    }
}

/// The pairs that a list of variables stands for.
pub open spec fn bindings_of(vars: Seq<(String, String)>) -> Seq<Binding> {
    vars.map_values(|b: (String, String)| (b.0@, b.1@))
}

/// The names of `required` that are not set, in their order.
pub open spec fn missing_vars(vars: Seq<Binding>, required: Seq<Seq<char>>) -> Seq<Seq<char>> {
    required.filter(|name: Seq<char>| !is_set(vars, name))
}

/// The texts joined by `sep`.
pub open spec fn joined(parts: Seq<Seq<char>>, sep: Seq<char>) -> Seq<char>
    decreases parts.len(),
{
    if parts.len() == 0 {
        Seq::empty()
    } else if parts.len() == 1 {
        parts[0]
    } else {
        joined(parts.drop_last(), sep) + sep + parts.last()
    }
}

/// The variables written out as the text of a `.env` file: one line per
/// variable, the name, an equals sign, the value.
pub open spec fn rendered(vars: Seq<Binding>) -> Seq<char>
    decreases vars.len(),
{
    if vars.len() == 0 {
        Seq::empty()
    } else {
        rendered(vars.drop_last()) + vars.last().0 + seq!['='] + vars.last().1 + seq!['\n']
    }
}

/// The views of a list of names.
pub open spec fn name_views(names: Seq<&str>) -> Seq<Seq<char>> {
    names.map_values(|n: &str| n@)
}

/// Environment variable manager
#[derive(Debug, Clone)]
pub struct EnvManager {
    env_vars: Vec<(String, String)>,
}

impl EnvManager {
    /// The variables, in the order in which their names were first set.
    pub closed spec fn vars(&self) -> Seq<Binding> {
        bindings_of(self.env_vars@)
    }

    /// What every manager upholds: no variable is set twice.
    pub open spec fn wf(&self) -> bool {
        distinct_vars(self.vars())
    }

    /// A manager with no variable set.
    pub fn new() -> (r: Self)
        ensures
            r.wf(),
            r.vars() == Seq::<Binding>::empty(),
    {
        let r = EnvManager { env_vars: Vec::new() };
        assert(r.vars() =~= Seq::<Binding>::empty());
        r
    }

    /// The position of `key`, if it is set.
    fn find(&self, key: &str) -> (r: Option<usize>)
        requires
            self.wf(),
        ensures
            r is Some <==> is_set(self.vars(), key@),
            r is Some ==> r->Some_0 < self.env_vars@.len() && r->Some_0 == var_slot(
                self.vars(),
                key@,
            ),
    {
        let mut i: usize = 0;
        while i < self.env_vars.len()
            invariant
                i <= self.env_vars@.len(),
                self.wf(),
                forall|k: int| 0 <= k < i ==> self.vars()[k].0 != key@,
            decreases self.env_vars@.len() - i,
        {
            if same_text(self.env_vars[i].0.as_str(), key) {
                proof {
                    let vars = self.vars();
                    assert(vars[i as int].0 == key@);
                    let j = var_slot(vars, key@);
                    assert(0 <= j < vars.len() && vars[j].0 == key@);
                    assert(j == i);
                }
                return Some(i);
            }
            i += 1;
        }
        None
    }

    /// The value of the variable `key`, if it is set.
    pub fn get(&self, key: &str) -> (r: Option<&str>)
        requires
            self.wf(),
        ensures
            match r {
                Some(v) => value_of(self.vars(), key@) == Some(v@),
                None => value_of(self.vars(), key@) is None,
            },
    {
        match self.find(key) {
            Some(i) => {
                assert(self.vars()[i as int].1 == self.env_vars@[i as int].1@);
                Some(self.env_vars[i].1.as_str())
            },
            None => None,
        }
    }

    /// The value of the variable `key`, or `default` where it is not set.
    pub fn get_or<'a>(&'a self, key: &str, default: &'a str) -> (r: &'a str)
        requires
            self.wf(),
        ensures
            r@ == match value_of(self.vars(), key@) {
                Some(v) => v,
                None => default@,
            },
    {
        match self.get(key) {
            Some(v) => v,
            None => default,
        }
    }

    /// Sets the variable `key` to `value`.
    pub fn set(&mut self, key: String, value: String)
        requires
            old(self).wf(),
        ensures
            final(self).wf(),
            final(self).vars() == with_var(old(self).vars(), key@, value@),
    {
        let ghost before = self.vars();
        let ghost k = key@;
        let ghost v = value@;
        match self.find(key.as_str()) {
            Some(i) => {
                self.env_vars[i] = (key, value);
                assert(self.vars() =~= before.update(i as int, (k, v)));
            },
            None => {
                self.env_vars.push((key, value));
                assert(self.vars() =~= before.push((k, v)));
            },
        }
    }

    /// Whether the variable `key` is set.
    pub fn contains(&self, key: &str) -> (r: bool)
        requires
            self.wf(),
        ensures
            r == is_set(self.vars(), key@),
    {
        self.find(key).is_some()
    }

    /// All variables, in the order in which their names were first set.
    pub fn all(&self) -> (r: &Vec<(String, String)>)
        ensures
            bindings_of(r@) == self.vars(),
    {
        &self.env_vars
    }

    /// Checks that every name of `required_vars` is set. The failure names
    /// the missing variables in the order in which they were asked for.
    pub fn validate_required(&self, required_vars: &[&str]) -> (r: Result<(), ForgeKitError>)
        requires
            self.wf(),
        ensures
            missing_vars(self.vars(), name_views(required_vars@)).len() == 0 ==> r is Ok,
            missing_vars(self.vars(), name_views(required_vars@)).len() > 0 ==> r is Err
                && r->Err_0 is InvalidConfig && r->Err_0.detail()
                == "Missing required environment variables: "@ + joined(
                missing_vars(self.vars(), name_views(required_vars@)),
                ", "@,
            ),
    {
        let ghost all = name_views(required_vars@);
        let ghost pred = |name: Seq<char>| !is_set(self.vars(), name);
        let mut list = String::new();
        let mut count: usize = 0;
        let mut i: usize = 0;
        proof {
            reveal(Seq::filter);
            assert(all.subrange(0, 0).filter(pred) =~= Seq::<Seq<char>>::empty());
        }
        while i < required_vars.len()
            invariant
                i <= required_vars@.len(),
                self.wf(),
                all == name_views(required_vars@),
                pred == (|name: Seq<char>| !is_set(self.vars(), name)),
                count == all.subrange(0, i as int).filter(pred).len(),
                count <= i,
                list@ == joined(all.subrange(0, i as int).filter(pred), ", "@),
            decreases required_vars@.len() - i,
        {
            let name: &str = required_vars[i];
            let ghost found = all.subrange(0, i as int).filter(pred);
            proof {
                reveal(Seq::filter);
                let next = all.subrange(0, i + 1);
                assert(next.drop_last() =~= all.subrange(0, i as int));
                assert(next.last() == name@);
            }
            if !self.contains(name) {
                if count > 0 {
                    list.append(", ");
                }
                list.append(name);
                proof {
                    let grown = found.push(name@);
                    assert(grown.drop_last() =~= found);
                    if count == 0 {
                        assert(found =~= Seq::<Seq<char>>::empty());
                        assert(list@ =~= name@);
                    } else if count == 1 {
                        assert(found.len() == 1);
                    }
                    assert(list@ =~= joined(grown, ", "@));
                }
                count += 1;
            }
            i += 1;
        }
        assert(all.subrange(0, i as int) =~= all);
        if count > 0 {
            return Err(
                ForgeKitError::InvalidConfig(
                    join2("Missing required environment variables: ", list.as_str()),
                ),
            );
        }
        Ok(())
    }

    /// The variables written out as the text of a `.env` file.
    pub fn render(&self) -> (r: String)
        ensures
            r@ == rendered(self.vars()),
    {
        let mut out = String::new();
        let mut i: usize = 0;
        proof {
            reveal_strlit("=");
            reveal_strlit("\n");
            assert("="@ =~= seq!['=']);
            assert("\n"@ =~= seq!['\n']);
            assert(self.vars().subrange(0, 0) =~= Seq::<Binding>::empty());
        }
        while i < self.env_vars.len()
            invariant
                i <= self.env_vars@.len(),
                "="@ == seq!['='],
                "\n"@ == seq!['\n'],
                out@ == rendered(self.vars().subrange(0, i as int)),
            decreases self.env_vars@.len() - i,
        {
            proof {
                let next = self.vars().subrange(0, i + 1);
                assert(next.drop_last() =~= self.vars().subrange(0, i as int));
                assert(next.last() == self.vars()[i as int]);
            }
            out.append(self.env_vars[i].0.as_str());
            out.append("=");
            out.append(self.env_vars[i].1.as_str());
            out.append("\n");
            i += 1;
        }
        assert(self.vars().subrange(0, i as int) =~= self.vars());
        out
    }
}

impl Default for EnvManager {
    fn default() -> (r: Self)
        ensures
            r.wf(),
            r.vars() == Seq::<Binding>::empty(),
    {
        EnvManager::new()
    }
}

/// A value without the pair of quotes around it: a value of two or more
/// characters that starts and ends with the same quote character, double or
/// single, loses both; any other value stays as it is.
pub open spec fn unquoted(v: Seq<char>) -> Seq<char> {
    if v.len() >= 2 && ((v[0] == '"' && v.last() == '"') || (v[0] == '\'' && v.last() == '\'')) {
        v.subrange(1, v.len() - 1)
    } else {
        v
    }
}

/// The variables after one line of a `.env` file was read. Blank lines and
/// lines that start with `#` are passed over, and so are lines without an
/// equals sign. In any other line the text before the first equals sign is
/// the name and the text after it the value, both without the white space
/// around them, the value without its quotes.
pub open spec fn after_line(vars: Seq<Binding>, line: Seq<char>) -> Seq<Binding> {
    let t = trimmed_text(line);
    let e = first_at(t, '=');
    if t.len() == 0 || t[0] == '#' || e < 0 || e >= t.len() {
        vars
    } else {
        with_var(
            vars,
            trimmed_text(t.subrange(0, e)),
            unquoted(trimmed_text(t.subrange(e + 1, t.len() as int))),
        )
    }
}

/// The variables after the text of a `.env` file was read, line by line.
pub open spec fn after_content(vars: Seq<Binding>, content: Seq<char>) -> Seq<Binding>
    decreases content.len(),
{
    let n = first_at(content, '\n');
    if n < 0 || n >= content.len() {
        after_line(vars, content)
    } else {
        after_content(
            after_line(vars, content.subrange(0, n)),
            content.subrange(n + 1, content.len() as int),
        )
    }
}

/// Where no variable is set twice, the value found under the name of a
/// variable is the value of that variable.
pub proof fn lemma_value_at(vars: Seq<Binding>, i: int)
    requires
        distinct_vars(vars),
        0 <= i < vars.len(),
    ensures
        value_of(vars, vars[i].0) == Some(vars[i].1),
{
    let j = var_slot(vars, vars[i].0);
    assert(0 <= j < vars.len() && vars[j].0 == vars[i].0);
    assert(j == i);
}

/// After setting `key` to `value`, `key` has exactly that value, and every
/// other variable has the value it had.
pub proof fn law_set_then_value(vars: Seq<Binding>, key: Seq<char>, value: Seq<char>)
    requires
        distinct_vars(vars),
    ensures
        distinct_vars(with_var(vars, key, value)),
        value_of(with_var(vars, key, value), key) == Some(value),
        forall|other: Seq<char>|
            other != key ==> value_of(with_var(vars, key, value), other) == value_of(vars, other),
{
    lemma_with_var_distinct(vars, key, value);
    let after = with_var(vars, key, value);
    let i = if is_set(vars, key) {
        var_slot(vars, key)
    } else {
        vars.len() as int
    };
    assert(after[i] == (key, value));
    lemma_value_at(after, i);
    assert forall|other: Seq<char>| other != key implies value_of(after, other) == value_of(
        vars,
        other,
    ) by {
        if is_set(vars, other) {
            let j = var_slot(vars, other);
            assert(after[j] == vars[j]);
            lemma_value_at(after, j);
        } else if is_set(after, other) {
            let j = var_slot(after, other);
            assert(j < vars.len());
            assert(vars[j].0 == other);
        }
    }
}

/// Setting a variable keeps the names distinct.
proof fn lemma_with_var_distinct(vars: Seq<Binding>, key: Seq<char>, value: Seq<char>)
    requires
        distinct_vars(vars),
    ensures
        distinct_vars(with_var(vars, key, value)),
{
    let after = with_var(vars, key, value);
    if is_set(vars, key) {
        let i = var_slot(vars, key);
        assert forall|a: int, b: int| 0 <= a < b < after.len() implies after[a].0 != after[b].0 by {
            assert(after[a].0 == vars[a].0);
            assert(after[b].0 == vars[b].0);
        }
    } else {
        assert forall|a: int, b: int| 0 <= a < b < after.len() implies after[a].0 != after[b].0 by {
            if b == vars.len() {
                assert(vars[a].0 != key);
            }
        }
    }
}

/// `char::is_alphanumeric` of std: whether the character is a letter or a
/// number as Unicode classes them.
#[verifier::external_body]
fn char_is_alphanumeric(c: char) -> (r: bool)
    ensures
        r == unicode_alphanumeric(c),
{
    c.is_alphanumeric()
}

/// Whether a character can stand in the name of a variable: a letter, a
/// number or an underscore.
pub open spec fn is_name_char(c: char) -> bool {
    unicode_alphanumeric(c) || c == '_'
}

/// The number of name characters at the start of `s`.
pub open spec fn name_run(s: Seq<char>) -> int
    decreases s.len(),
{
    if s.len() == 0 || !is_name_char(s[0]) {
        0
    } else {
        1 + name_run(s.subrange(1, s.len() as int))
    }
}

/// The reference to the variable `key` in braces.
pub open spec fn braced(key: Seq<char>) -> Seq<char> {
    seq!['$', '{'] + key + seq!['}']
}

/// `s` with each reference to `key` in braces replaced by `val`.
pub open spec fn brace_pass(s: Seq<char>, key: Seq<char>, val: Seq<char>) -> Seq<char> {
    replaced(s, braced(key), val)
}

/// `s` with each bare reference to `key` replaced by `val`. A bare
/// reference is a dollar sign with the longest run of name characters that
/// follows it; it refers to `key` where that run is exactly `key`.
pub open spec fn dollar_pass(s: Seq<char>, key: Seq<char>, val: Seq<char>) -> Seq<char>
    decreases s.len(),
{
    if s.len() == 0 {
        Seq::empty()
    } else if s[0] == '$' {
        let n = name_run(s.subrange(1, s.len() as int));
        if n < 0 || 1 + n > s.len() {
            s
        } else {
            let name = s.subrange(1, 1 + n);
            (if name == key {
                val
            } else {
                seq!['$'] + name
            }) + dollar_pass(s.subrange(1 + n, s.len() as int), key, val)
        }
    } else {
        seq![s[0]] + dollar_pass(s.subrange(1, s.len() as int), key, val)
    }
}

/// `s` after the references in braces to each variable were replaced, one
/// variable after the other in their order.
pub open spec fn braces_resolved(s: Seq<char>, vars: Seq<Binding>) -> Seq<char>
    decreases vars.len(),
{
    if vars.len() == 0 {
        s
    } else {
        brace_pass(braces_resolved(s, vars.drop_last()), vars.last().0, vars.last().1)
    }
}

/// `s` after the bare references to each variable were replaced, one
/// variable after the other in their order.
pub open spec fn dollars_resolved(s: Seq<char>, vars: Seq<Binding>) -> Seq<char>
    decreases vars.len(),
{
    if vars.len() == 0 {
        s
    } else {
        dollar_pass(dollars_resolved(s, vars.drop_last()), vars.last().0, vars.last().1)
    }
}

/// `s` with the variables substituted: first the references in braces,
/// then the bare ones.
pub open spec fn interpolated(s: Seq<char>, vars: Seq<Binding>) -> Seq<char> {
    dollars_resolved(braces_resolved(s, vars), vars)
}

/// `h` with each bare reference to `key` replaced by `val`.
fn chars_dollar_pass(h: &Vec<char>, key: &Vec<char>, val: &Vec<char>) -> (r: Vec<char>)
    ensures
        r@ == dollar_pass(h@, key@, val@),
{
    let n: usize = h.len();
    let mut out: Vec<char> = Vec::new();
    let mut i: usize = 0;
    proof {
        assert(h@.subrange(0, n as int) =~= h@);
        assert(out@ + dollar_pass(h@, key@, val@) =~= dollar_pass(h@, key@, val@));
    }
    while i < n
        invariant
            i <= n,
            n == h.len(),
            out@ + dollar_pass(h@.subrange(i as int, n as int), key@, val@) == dollar_pass(
                h@,
                key@,
                val@,
            ),
        decreases n - i,
    {
        let ghost rest = h@.subrange(i as int, n as int);
        let ghost before = out@;
        assert(rest[0] == h@[i as int]);
        if h[i] == '$' {
            let mut j: usize = i + 1;
            let ghost tail = h@.subrange(i + 1, n as int);
            assert(rest.subrange(1, rest.len() as int) =~= tail);
            assert(h@.subrange(j as int, n as int) =~= tail);
            while j < n && (char_is_alphanumeric(h[j]) || h[j] == '_')
                invariant
                    i < j <= n,
                    n == h.len(),
                    (j - i - 1) + name_run(h@.subrange(j as int, n as int)) == name_run(
                        h@.subrange(i + 1, n as int),
                    ),
                decreases n - j,
            {
                proof {
                    let cur = h@.subrange(j as int, n as int);
                    assert(cur[0] == h@[j as int]);
                    assert(cur.subrange(1, cur.len() as int) =~= h@.subrange(j + 1, n as int));
                }
                j += 1;
            }
            proof {
                let cur = h@.subrange(j as int, n as int);
                if j < n {
                    assert(cur[0] == h@[j as int]);
                }
                assert(name_run(cur) == 0);
                assert(name_run(tail) == j - i - 1);
                assert(rest.subrange(1, 1 + (j - i - 1)) =~= h@.subrange(i + 1, j as int));
                assert(rest.subrange(1 + (j - i - 1), rest.len() as int) =~= h@.subrange(
                    j as int,
                    n as int,
                ));
            }
            let name = slice_chars(h, i + 1, j);
            if chars_equal(&name, key) {
                append_chars(&mut out, val, 0, val.len());
                assert(val@.subrange(0, val.len() as int) =~= val@);
            } else {
                out.push('$');
                append_chars(&mut out, &name, 0, name.len());
                assert(name@.subrange(0, name.len() as int) =~= name@);
                assert(out@ =~= before + (seq!['$'] + name@));
            }
            proof {
                let piece = if name@ == key@ {
                    val@
                } else {
                    seq!['$'] + name@
                };
                assert(out@ =~= before + piece);
                assert(out@ + dollar_pass(h@.subrange(j as int, n as int), key@, val@) =~= before
                    + (piece + dollar_pass(h@.subrange(j as int, n as int), key@, val@)));
            }
            i = j;
        } else {
            proof {
                assert(rest.subrange(1, rest.len() as int) =~= h@.subrange(i + 1, n as int));
                assert(before.push(h@[i as int]) + dollar_pass(
                    h@.subrange(i + 1, n as int),
                    key@,
                    val@,
                ) =~= before + (seq![rest[0]] + dollar_pass(
                    rest.subrange(1, rest.len() as int),
                    key@,
                    val@,
                )));
            }
            out.push(h[i]);
            i += 1;
        }
    }
    proof {
        assert(h@.subrange(n as int, n as int) =~= Seq::<char>::empty());
        assert(out@ + Seq::<char>::empty() =~= out@);
    }
    out
}

impl EnvManager {
    /// Reads one line of a `.env` file.
    fn parse_line(&mut self, line: &Vec<char>)
        requires
            old(self).wf(),
        ensures
            final(self).wf(),
            final(self).vars() == after_line(old(self).vars(), line@),
    {
        let t = chars_trim(line);
        if t.len() == 0 || t[0] == '#' {
            return ;
        }
        let e = find_char(&t, '=');
        if e >= t.len() {
            return ;
        }
        let name = slice_chars(&t, 0, e);
        let key = chars_trim(&name);
        let rest = slice_chars(&t, e + 1, t.len());
        let raw = chars_trim(&rest);
        let m: usize = raw.len();
        let value = if m >= 2 && ((raw[0] == '"' && raw[m - 1] == '"') || (raw[0] == '\''
            && raw[m - 1] == '\'')) {
            slice_chars(&raw, 1, m - 1)
        } else {
            raw
        };
        proof {
            lemma_with_var_distinct(self.vars(), key@, value@);
        }
        self.set(from_chars(&key), from_chars(&value));
    }

    /// Reads the text of a `.env` file, line by line, setting each variable
    /// that a line defines; a later line for a name overrides an earlier one.
    pub fn parse_env_content(&mut self, content: &str) -> (r: Result<(), ForgeKitError>)
        requires
            old(self).wf(),
        ensures
            r is Ok,
            final(self).wf(),
            final(self).vars() == after_content(old(self).vars(), content@),
    {
        let h = to_chars(content);
        let n: usize = h.len();
        let mut i: usize = 0;
        let mut done = false;
        assert(h@.subrange(0, n as int) =~= h@);
        while !done
            invariant
                i <= n,
                n == h.len(),
                h@ == content@,
                self.wf(),
                !done ==> after_content(self.vars(), h@.subrange(i as int, n as int))
                    == after_content(old(self).vars(), content@),
                done ==> self.vars() == after_content(old(self).vars(), content@),
            decreases n - i + (if done { 0int } else { 1int }),
        {
            let ghost rest = h@.subrange(i as int, n as int);
            let end = find_char_from(&h, i, '\n');
            let line = slice_chars(&h, i, end);
            proof {
                assert(line@ =~= rest.subrange(0, end - i));
            }
            if end >= n {
                assert(line@ =~= rest);
                self.parse_line(&line);
                done = true;
            } else {
                self.parse_line(&line);
                proof {
                    assert(rest.subrange(end - i + 1, rest.len() as int) =~= h@.subrange(
                        end + 1,
                        n as int,
                    ));
                }
                i = end + 1;
            }
        }
        Ok(())
    }

    /// Substitutes the variables into `value`. First every `${NAME}` is
    /// replaced by the value of `NAME`, one variable after the other in
    /// their order; then every `$NAME` that is not followed by a further
    /// name character, in the same way. References to names that are not
    /// set stay as they are.
    pub fn interpolate(&self, value: &str) -> (r: Result<String, ForgeKitError>)
        ensures
            r is Ok,
            r->Ok_0@ == interpolated(value@, self.vars()),
    {
        let mut result = to_chars(value);
        let mut i: usize = 0;
        assert(self.vars().subrange(0, 0) =~= Seq::<Binding>::empty());
        while i < self.env_vars.len()
            invariant
                i <= self.env_vars@.len(),
                result@ == braces_resolved(value@, self.vars().subrange(0, i as int)),
            decreases self.env_vars@.len() - i,
        {
            proof {
                let next = self.vars().subrange(0, i + 1);
                assert(next.drop_last() =~= self.vars().subrange(0, i as int));
                assert(next.last() == self.vars()[i as int]);
            }
            let key = to_chars(self.env_vars[i].0.as_str());
            let val = to_chars(self.env_vars[i].1.as_str());
            let mut pattern: Vec<char> = Vec::new();
            pattern.push('$');
            pattern.push('{');
            append_chars(&mut pattern, &key, 0, key.len());
            pattern.push('}');
            proof {
                assert(key@.subrange(0, key.len() as int) =~= key@);
                assert(pattern@ =~= braced(key@));
            }
            result = chars_replace(&result, &pattern, &val);
            i += 1;
        }
        assert(self.vars().subrange(0, i as int) =~= self.vars());
        let ghost middle = result@;
        let mut j: usize = 0;
        while j < self.env_vars.len()
            invariant
                j <= self.env_vars@.len(),
                result@ == dollars_resolved(middle, self.vars().subrange(0, j as int)),
            decreases self.env_vars@.len() - j,
        {
            proof {
                let next = self.vars().subrange(0, j + 1);
                assert(next.drop_last() =~= self.vars().subrange(0, j as int));
                assert(next.last() == self.vars()[j as int]);
            }
            let key = to_chars(self.env_vars[j].0.as_str());
            let val = to_chars(self.env_vars[j].1.as_str());
            result = chars_dollar_pass(&result, &key, &val);
            j += 1;
        }
        assert(self.vars().subrange(0, j as int) =~= self.vars());
        Ok(from_chars(&result))
    }
}

} // verus!

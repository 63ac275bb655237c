//! `-c key=value` overrides and the config-location options given on the
//! command line.
use vstd::prelude::*;
use crate::text::{trim_text, trimmed, join_path, joined_path, is_absolute_path, absolute_path};

verus! {

/// Overrides captured from the command line, kept unparsed: each
/// `key=value` as written, and the config home and file when given.
pub struct CliConfigOverrides {
    pub raw_overrides: Vec<String>,
    pub config_home: Option<String>,
    pub config_file: Option<String>,
}

/// Sets `target` to `candidate` unless it already holds a value.
pub fn inherit_if_absent<T>(target: &mut Option<T>, candidate: Option<T>)
    ensures
        *final(target) == if (*old(target)) is None { candidate } else { *old(target) },
{
    if target.is_none() {
        *target = candidate;
    }
}

/// The index of the first `=` in `s`, if any.
pub open spec fn first_eq(s: Seq<char>) -> Option<int> {
    if exists|i: int| 0 <= i < s.len() && s[i] == '=' {
        Some(choose|i: int| 0 <= i < s.len() && s[i] == '=' && forall|j: int| 0 <= j < i ==> s[j] != '=')
    } else {
        None
    }
}

/// What an override denotes: the key before the first `=` and the value
/// after it, both trimmed; `None` for an override without `=` or with an
/// empty key.
pub open spec fn split_override(s: Seq<char>) -> Option<(Seq<char>, Seq<char>)> {
    match first_eq(s) {
        Some(i) => if trimmed(s.subrange(0, i)).len() == 0 {
            None
        } else {
            Some((trimmed(s.subrange(0, i)), trimmed(s.subrange(i + 1, s.len() as int))))
        },
        None => None,
    }
}

/// The message for an override that does not split.
pub open spec fn override_error(s: Seq<char>) -> Seq<char> {
    match first_eq(s) {
        None => "Invalid override (missing '='): "@ + s,
        Some(_) => "Empty key in override: "@ + s,
    }
}

/// Splits one override at its first `=`.
pub fn split_one(s: &str) -> (r: Result<(String, String), String>)
    ensures
        match split_override(s@) {
            Some((k, v)) => r matches Ok((rk, rv)) && rk@ == k && rv@ == v,
            None => r matches Err(m) && m@ == override_error(s@),
        },
{
    let n = s.unicode_len();
    let mut i: usize = 0;
    while i < n
        invariant
            n == s@.len(),
            0 <= i <= n,
            forall|j: int| 0 <= j < i ==> s@[j] != '=',
        ensures
            0 <= i <= n,
            i < n ==> s@[i as int] == '=',
            forall|j: int| 0 <= j < i ==> s@[j] != '=',
        decreases n - i,
    {
        if s.get_char(i) == '=' {
            break;
        }
        i = i + 1;
    }
    if i == n {
        assert(!exists|j: int| 0 <= j < s@.len() && s@[j] == '=');
        return Err(String::from_str("Invalid override (missing '='): ").concat(s));
    }
    let ghost k = choose|j: int| 0 <= j < s@.len() && s@[j] == '=' && forall|m: int| 0 <= m < j ==> s@[m] != '=';
    assert(s@[i as int] == '=');
    assert(k == i) by {
        if k < i {
            assert(s@[k] != '=');
        } else if k > i {
            assert(s@[i as int] != '=');
        }
    }
    let key = trim_text(s.substring_char(0, i));
    let value = trim_text(s.substring_char(i + 1, n));
    if key.unicode_len() == 0 {
        return Err(String::from_str("Empty key in override: ").concat(s));
    }
    Ok((key.to_owned(), value.to_owned()))
}

impl CliConfigOverrides {
    /// Splits every override into its key and value text, in order; the
    /// first override that does not split gives its error.
    pub fn split_overrides(&self) -> (r: Result<Vec<(String, String)>, String>)
        ensures
            r matches Ok(v) ==> v@.len() == self.raw_overrides@.len()
                && forall|i: int| 0 <= i < v@.len() ==> split_override(self.raw_overrides@[i]@)
                    == Some(((#[trigger] v@[i]).0@, v@[i].1@)),
            r matches Err(m) ==> exists|k: int| 0 <= k < self.raw_overrides@.len()
                && split_override(#[trigger] self.raw_overrides@[k]@) is None
                && m@ == override_error(self.raw_overrides@[k]@)
                && forall|i: int| 0 <= i < k ==> split_override(#[trigger] self.raw_overrides@[i]@) is Some,
            r is Ok <==> forall|i: int| 0 <= i < self.raw_overrides@.len()
                ==> split_override(#[trigger] self.raw_overrides@[i]@) is Some,
    {
        let mut out: Vec<(String, String)> = Vec::new();
        let mut i: usize = 0;
        while i < self.raw_overrides.len()
            invariant
                0 <= i <= self.raw_overrides@.len(),
                out@.len() == i,
                forall|j: int| 0 <= j < i ==> split_override(self.raw_overrides@[j]@)
                    == Some(((#[trigger] out@[j]).0@, out@[j].1@)),
            decreases self.raw_overrides@.len() - i,
        {
            match split_one(self.raw_overrides[i].as_str()) {
                Ok(kv) => out.push(kv),
                Err(m) => {
                    assert(forall|j: int| 0 <= j < i ==> split_override(#[trigger] self.raw_overrides@[j]@) is Some) by {
                        assert forall|j: int| 0 <= j < i implies split_override(#[trigger] self.raw_overrides@[j]@) is Some by {
                            assert(split_override(self.raw_overrides@[j]@) == Some((out@[j].0@, out@[j].1@)));
                        }
                    }
                    return Err(m);
                },
            }
            i = i + 1;
        }
        assert forall|j: int| 0 <= j < self.raw_overrides@.len() implies split_override(#[trigger] self.raw_overrides@[j]@) is Some by {
            assert(split_override(self.raw_overrides@[j]@) == Some((out@[j].0@, out@[j].1@)));
        }
        Ok(out)
    }

    /// Merges overrides given before a subcommand into these: their raw
    /// overrides come first, and a config home or file is taken from them
    /// only where these have none.
    pub fn prepend_from(&mut self, other: &CliConfigOverrides)
        ensures
            final(self).raw_overrides@ == other.raw_overrides@ + old(self).raw_overrides@,
            final(self).config_home == if old(self).config_home is None { other.config_home } else { old(self).config_home },
            final(self).config_file == if old(self).config_file is None { other.config_file } else { old(self).config_file },
    {
        let mut merged: Vec<String> = Vec::new();
        let mut i: usize = 0;
        while i < other.raw_overrides.len()
            invariant
                0 <= i <= other.raw_overrides@.len(),
                merged@ == other.raw_overrides@.subrange(0, i as int),
            decreases other.raw_overrides@.len() - i,
        {
            merged.push(other.raw_overrides[i].clone());
            assert(merged@ =~= other.raw_overrides@.subrange(0, i + 1));
            i = i + 1;
        }
        let mut j: usize = 0;
        while j < self.raw_overrides.len()
            invariant
                0 <= j <= self.raw_overrides@.len(),
                merged@ == other.raw_overrides@ + self.raw_overrides@.subrange(0, j as int),
            decreases self.raw_overrides@.len() - j,
        {
            merged.push(self.raw_overrides[j].clone());
            assert(merged@ =~= other.raw_overrides@ + self.raw_overrides@.subrange(0, j + 1));
            j = j + 1;
        }
        assert(self.raw_overrides@.subrange(0, self.raw_overrides@.len() as int) =~= self.raw_overrides@);
        self.raw_overrides = merged;
        let home = match &other.config_home {
            Some(h) => Some(h.clone()),
            None => None,
        };
        let file = match &other.config_file {
            Some(f) => Some(f.clone()),
            None => None,
        };
        inherit_if_absent(&mut self.config_home, home);
        inherit_if_absent(&mut self.config_file, file);
    }
}

/// Whether a character is a quote that a literal value loses at its ends.
pub open spec fn is_quote(c: char) -> bool {
    c == '"' || c == '\''
}

/// The index of the first character that is not a quote, or the length.
pub open spec fn quotes_before(s: Seq<char>) -> nat
    decreases s.len(),
{
    if s.len() > 0 && is_quote(s[0]) {
        1 + quotes_before(s.drop_first())
    } else {
        0
    }
}

/// A value taken as a plain string: trimmed, then without the quotes at
/// either end.
pub open spec fn literal_of(s: Seq<char>) -> Seq<char> {
    let t = trimmed(s);
    let a = quotes_before(t) as int;
    let rest = t.subrange(a, t.len() as int);
    rest.subrange(0, rest.len() - quotes_after(rest))
}

/// How many quotes end `s`.
pub open spec fn quotes_after(s: Seq<char>) -> nat
    decreases s.len(),
{
    if s.len() > 0 && is_quote(s.last()) {
        1 + quotes_after(s.drop_last())
    } else {
        0
    }
}

proof fn lemma_quotes_before(s: Seq<char>)
    ensures
        quotes_before(s) <= s.len(),
        forall|i: int| 0 <= i < quotes_before(s) ==> is_quote(#[trigger] s[i]),
        quotes_before(s) < s.len() ==> !is_quote(s[quotes_before(s) as int]),
    decreases s.len(),
{
    if s.len() > 0 && is_quote(s[0]) {
        lemma_quotes_before(s.drop_first());
        assert forall|i: int| 0 <= i < quotes_before(s) implies is_quote(#[trigger] s[i]) by {
            if i > 0 {
                assert(s[i] == s.drop_first()[i - 1]);
            }
        }
    }
}

proof fn lemma_quotes_after(s: Seq<char>)
    ensures
        quotes_after(s) <= s.len(),
        forall|i: int| s.len() - quotes_after(s) <= i < s.len() ==> is_quote(#[trigger] s[i]),
        quotes_after(s) < s.len() ==> !is_quote(s[s.len() - quotes_after(s) - 1]),
    decreases s.len(),
{
    if s.len() > 0 && is_quote(s.last()) {
        lemma_quotes_after(s.drop_last());
        assert forall|i: int| s.len() - quotes_after(s) <= i < s.len() implies is_quote(#[trigger] s[i]) by {
            if i < s.len() - 1 {
                assert(s[i] == s.drop_last()[i]);
            }
        }
    }
}

/// Where a prefix of quotes ends: the count found by a scan.
proof fn lemma_quotes_before_at(s: Seq<char>, k: int)
    requires
        0 <= k <= s.len(),
        forall|i: int| 0 <= i < k ==> is_quote(#[trigger] s[i]),
        k < s.len() ==> !is_quote(s[k]),
    ensures
        quotes_before(s) == k,
    decreases k,
{
    if k > 0 {
        assert forall|i: int| 0 <= i < k - 1 implies is_quote(#[trigger] s.drop_first()[i]) by {
            assert(s.drop_first()[i] == s[i + 1]);
        }
        if k - 1 < s.len() - 1 {
            assert(s.drop_first()[k - 1] == s[k]);
        }
        lemma_quotes_before_at(s.drop_first(), k - 1);
    }
}

proof fn lemma_quotes_after_at(s: Seq<char>, k: int)
    requires
        0 <= k <= s.len(),
        forall|i: int| s.len() - k <= i < s.len() ==> is_quote(#[trigger] s[i]),
        k < s.len() ==> !is_quote(s[s.len() - k - 1]),
    ensures
        quotes_after(s) == k,
    decreases k,
{
    if k > 0 {
        let t = s.drop_last();
        assert forall|i: int| t.len() - (k - 1) <= i < t.len() implies is_quote(#[trigger] t[i]) by {
            assert(t[i] == s[i]);
        }
        if k - 1 < t.len() {
            assert(t[t.len() - (k - 1) - 1] == s[s.len() - k - 1]);
        }
        lemma_quotes_after_at(t, k - 1);
    }
}

/// A value that is not TOML, taken as a plain string: trimmed, and without
/// the quotes at either end.
pub fn literal_value(value: &str) -> (r: String)
    ensures
        r@ == literal_of(value@),
{
    let t = trim_text(value);
    let n = t.unicode_len();
    let mut a: usize = 0;
    while a < n && (t.get_char(a) == '"' || t.get_char(a) == '\'')
        invariant
            n == t@.len(),
            0 <= a <= n,
            forall|i: int| 0 <= i < a ==> is_quote(#[trigger] t@[i]),
        decreases n - a,
    {
        a = a + 1;
    }
    proof { lemma_quotes_before_at(t@, a as int); }
    let rest = t.substring_char(a, n);
    let m = rest.unicode_len();
    let mut b: usize = m;
    while b > 0 && (rest.get_char(b - 1) == '"' || rest.get_char(b - 1) == '\'')
        invariant
            m == rest@.len(),
            0 <= b <= m,
            forall|i: int| b <= i < m ==> is_quote(#[trigger] rest@[i]),
        decreases b,
    {
        b = b - 1;
    }
    proof { lemma_quotes_after_at(rest@, (m - b) as int); }
    rest.substring_char(0, b).to_owned()
}

/// The places a relative `--config-file` is looked for, in order: the
/// working directory, its `.codex`, and the home directory's `.codex`. An
/// absolute path is only itself.
pub fn config_file_candidates(path: &str, cwd: &str, home: Option<&str>) -> (r: Vec<String>)
    ensures
        absolute_path(path@) ==> r@.len() == 1 && r@[0]@ == path@,
        !absolute_path(path@) ==> {
            &&& r@.len() == if home is Some { 3nat } else { 2nat }
            &&& r@[0]@ == joined_path(cwd@, path@)
            &&& r@[1]@ == joined_path(joined_path(cwd@, ".codex"@), path@)
            &&& home matches Some(h) ==> r@[2]@ == joined_path(joined_path(h@, ".codex"@), path@)
        },
{
    let mut out: Vec<String> = Vec::new();
    if is_absolute_path(path) {
        out.push(path.to_owned());
        return out;
    }
    out.push(join_path(cwd, path));
    out.push(join_path(join_path(cwd, ".codex").as_str(), path));
    match home {
        Some(h) => out.push(join_path(join_path(h, ".codex").as_str(), path)),
        None => {},
    }
    out
}

} // verus!

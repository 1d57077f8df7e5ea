//! Parsing what the env provider command prints: `export NAME=VALUE` lines
//! (shell format) and, entry by entry, a JSON object of strings.
use vstd::prelude::*;
use crate::env_map::{EnvMap, has_key};
use crate::text::{lines_from, leading_ws, trailing_ws, strip_cr, decimal, push_decimal, chars_of, split_lines, lines, trim, trim_bounds, string_of_range, push_char,
    find_char, find_char_exec, lemma_find_char_bounds, is_white_space, char_is_white_space};

verus! {

/// Why the provider output was refused, over character sequences.
pub enum EnvOutputFault {
    /// A line that is not `export NAME=VALUE` (line number).
    ExpectedExport(nat),
    /// A name that is not a valid variable name, with its line number in shell output.
    InvalidKey(Seq<char>, Option<nat>),
    /// A name given twice.
    DuplicateKey(Seq<char>),
    /// A double-quoted value ending in a lone backslash (line number).
    InvalidEscape(nat),
    /// An unquoted value holding white space (line number).
    UnquotedWhitespace(nat),
    /// A JSON value that is not a string, for the name given.
    NotAString(Seq<char>),
}

/// Why the provider output was refused.
#[derive(Debug)]
pub enum EnvOutputError {
    ExpectedExport { line: usize },
    InvalidKey { name: String, line: Option<usize> },
    DuplicateKey { name: String },
    InvalidEscape { line: usize },
    UnquotedWhitespace { line: usize },
    NotAString { name: String },
}

impl EnvOutputError {
    /// The failure this error reports.
    pub open spec fn fault(&self) -> EnvOutputFault {
        match self {
            EnvOutputError::ExpectedExport { line } => EnvOutputFault::ExpectedExport(*line as nat),
            EnvOutputError::InvalidKey { name, line } => EnvOutputFault::InvalidKey(
                name@,
                match line {
                    Some(n) => Some(*n as nat),
                    None => None,
                },
            ),
            EnvOutputError::DuplicateKey { name } => EnvOutputFault::DuplicateKey(name@),
            EnvOutputError::InvalidEscape { line } => EnvOutputFault::InvalidEscape(*line as nat),
            EnvOutputError::UnquotedWhitespace { line } => EnvOutputFault::UnquotedWhitespace(*line as nat),
            EnvOutputError::NotAString { name } => EnvOutputFault::NotAString(name@),
        }
    }
}

/// An ASCII letter.
pub open spec fn is_ascii_letter(c: char) -> bool {
    ('a' <= c && c <= 'z') || ('A' <= c && c <= 'Z')
}

/// An ASCII digit.
pub open spec fn is_ascii_digit(c: char) -> bool {
    '0' <= c && c <= '9'
}

/// A variable name: a letter or `_`, then letters, digits and `_`.
pub open spec fn valid_env_name(s: Seq<char>) -> bool {
    &&& s.len() > 0
    &&& (s[0] == '_' || is_ascii_letter(s[0]))
    &&& forall|i: int| 1 <= i < s.len() ==> #[trigger] s[i] == '_' || is_ascii_letter(s[i]) || is_ascii_digit(s[i])
}

/// Whether `name` is a variable name: a letter or `_`, then letters, digits and `_`.
pub fn is_valid_env_name(name: &str) -> (b: bool)
    ensures
        b == valid_env_name(name@),
{
    let v = chars_of(name);
    assert(v@.subrange(0, v@.len() as int) =~= v@);
    is_valid_name_chars(&v, 0, v.len())
}

/// Whether `v[from..to]` is a variable name.
fn is_valid_name_chars(v: &Vec<char>, from: usize, to: usize) -> (b: bool)
    requires
        from <= to <= v@.len(),
    ensures
        b == valid_env_name(v@.subrange(from as int, to as int)),
{
    let ghost s = v@.subrange(from as int, to as int);
    if from == to {
        return false;
    }
    let c = v[from];
    if !(c == '_' || ('a' <= c && c <= 'z') || ('A' <= c && c <= 'Z')) {
        return false;
    }
    let mut i = from + 1;
    while i < to
        invariant
            from < i <= to <= v@.len(),
            s == v@.subrange(from as int, to as int),
            forall|j: int| 1 <= j < i - from ==> #[trigger] s[j] == '_' || is_ascii_letter(s[j]) || is_ascii_digit(s[j]),
        decreases to - i,
    {
        let c = v[i];
        if !(c == '_' || ('a' <= c && c <= 'z') || ('A' <= c && c <= 'Z') || ('0' <= c && c <= '9')) {
            assert(s[i - from] == c);
            return false;
        }
        i = i + 1;
    }
    true
}

/// The character a backslash escape stands for in a double-quoted value.
pub open spec fn escaped_char(c: char) -> char {
    if c == 'n' {
        '\n'
    } else if c == 'r' {
        '\r'
    } else if c == 't' {
        '\t'
    } else {
        c
    }
}

/// The text of a double-quoted body with its escapes replaced, or `None`
/// when it ends in a lone backslash.
pub open spec fn unescape(s: Seq<char>) -> Option<Seq<char>>
    decreases s.len(),
{
    if s.len() == 0 {
        Some(seq![])
    } else if s[0] == '\\' {
        if s.len() < 2 {
            None
        } else {
            match unescape(s.subrange(2, s.len() as int)) {
                Some(r) => Some(seq![escaped_char(s[1])] + r),
                None => None,
            }
        }
    } else {
        match unescape(s.drop_first()) {
            Some(r) => Some(seq![s[0]] + r),
            None => None,
        }
    }
}

/// The value of `export NAME=raw` on line `line`: a single-quoted value
/// verbatim, a double-quoted one with its escapes replaced, an unquoted one
/// as it is unless it holds white space.
pub open spec fn shell_value(raw: Seq<char>, line: nat) -> Result<Seq<char>, EnvOutputFault> {
    if raw.len() >= 2 && raw[0] == '\'' && raw.last() == '\'' {
        Ok(raw.subrange(1, raw.len() - 1))
    } else if raw.len() >= 2 && raw[0] == '"' && raw.last() == '"' {
        match unescape(raw.subrange(1, raw.len() - 1)) {
            Some(v) => Ok(v),
            None => Err(EnvOutputFault::InvalidEscape(line)),
        }
    } else if exists|i: int| 0 <= i < raw.len() && is_white_space(#[trigger] raw[i]) {
        Err(EnvOutputFault::UnquotedWhitespace(line))
    } else {
        Ok(raw)
    }
}

/// The value written as `v[from..to]` on line `line` (see `shell_value`).
pub fn parse_shell_value(v: &Vec<char>, from: usize, to: usize, line: usize) -> (r: Result<String, EnvOutputError>)
    requires
        from <= to <= v@.len(),
    ensures
        r matches Ok(s) ==> shell_value(v@.subrange(from as int, to as int), line as nat) == Ok::<Seq<char>, EnvOutputFault>(s@),
        r matches Err(e) ==> shell_value(v@.subrange(from as int, to as int), line as nat) == Err::<Seq<char>, EnvOutputFault>(e.fault()),
{
    let ghost raw = v@.subrange(from as int, to as int);
    if to - from >= 2 && v[from] == '\'' && v[to - 1] == '\'' {
        let s = string_of_range(v, from + 1, to - 1);
        assert(s@ =~= raw.subrange(1, raw.len() - 1));
        return Ok(s);
    }
    if to - from >= 2 && v[from] == '"' && v[to - 1] == '"' {
        let mut out = String::new();
        let mut i = from + 1;
        let end = to - 1;
        let ghost body = raw.subrange(1, raw.len() - 1);
        assert(body =~= v@.subrange(from + 1, end as int));
        assert(out@ + v@.subrange(i as int, end as int) =~= v@.subrange(i as int, end as int));
        while i < end
            invariant
                from + 1 <= i <= end,
                end == to - 1,
                to <= v@.len(),
                body == v@.subrange(from + 1, end as int),
                raw == v@.subrange(from as int, to as int),
                raw.len() >= 2 && raw[0] == '"' && raw.last() == '"',
                body == raw.subrange(1, raw.len() - 1),
                unescape(body) == match unescape(v@.subrange(i as int, end as int)) {
                    Some(x) => Some(out@ + x),
                    None => None::<Seq<char>>,
                },
            decreases end - i,
        {
            let ghost rest = v@.subrange(i as int, end as int);
            let c = v[i];
            if c == '\\' {
                if i + 1 >= end {
                    assert(unescape(rest) is None);
                    return Err(EnvOutputError::InvalidEscape { line });
                }
                let e = v[i + 1];
                let mapped = if e == 'n' {
                    '\n'
                } else if e == 'r' {
                    '\r'
                } else if e == 't' {
                    '\t'
                } else {
                    e
                };
                let ghost before = out@;
                push_char(&mut out, mapped);
                assert(rest.subrange(2, rest.len() as int) =~= v@.subrange(i + 2, end as int));
                proof {
                    match unescape(v@.subrange(i + 2, end as int)) {
                        Some(x) => {
                            assert(before + (seq![mapped] + x) =~= out@ + x);
                        },
                        None => {},
                    }
                }
                i = i + 2;
            } else {
                let ghost before = out@;
                push_char(&mut out, c);
                assert(rest.drop_first() =~= v@.subrange(i + 1, end as int));
                proof {
                    match unescape(v@.subrange(i + 1, end as int)) {
                        Some(x) => {
                            assert(before + (seq![c] + x) =~= out@ + x);
                        },
                        None => {},
                    }
                }
                i = i + 1;
            }
        }
        assert(unescape(v@.subrange(i as int, end as int)) == Some(Seq::<char>::empty()));
        assert(out@ + seq![] =~= out@);
        return Ok(out);
    }
    if to - from >= 2 {
        assert(raw[0] == v@[from as int]);
        assert(raw.last() == v@[to - 1]);
    }
    let mut i = from;
    while i < to
        invariant
            from <= i <= to <= v@.len(),
            raw == v@.subrange(from as int, to as int),
            !(raw.len() >= 2 && raw[0] == '\'' && raw.last() == '\''),
            !(raw.len() >= 2 && raw[0] == '"' && raw.last() == '"'),
            forall|j: int| 0 <= j < i - from ==> !is_white_space(#[trigger] raw[j]),
        decreases to - i,
    {
        if char_is_white_space(v[i]) {
            assert(raw[i - from] == v@[i as int]);
            assert(is_white_space(raw[i - from]));
            return Err(EnvOutputError::UnquotedWhitespace { line });
        }
        i = i + 1;
    }
    Ok(string_of_range(v, from, to))
}


/// The text `export ` that starts every assignment line.
pub open spec fn export_prefix() -> Seq<char> {
    seq!['e', 'x', 'p', 'o', 'r', 't', ' ']
}

/// The entries of shell-format output from line index `i` on, after the
/// entries `acc` of the lines before it. Blank lines and `#` comments are
/// skipped; every other line must read `export NAME=VALUE` (after trimming),
/// with a valid name not given before.
pub open spec fn shell_entries_from(ls: Seq<Seq<char>>, i: int, acc: Seq<(Seq<char>, Seq<char>)>) -> Result<Seq<(Seq<char>, Seq<char>)>, EnvOutputFault>
    decreases ls.len() - i,
{
    if i < 0 || i >= ls.len() {
        Ok(acc)
    } else {
        let t = trim(ls[i]);
        let n = (i + 1) as nat;
        if t.len() == 0 || t[0] == '#' {
            shell_entries_from(ls, i + 1, acc)
        } else if t.len() < 7 || t.subrange(0, 7) != export_prefix() {
            Err(EnvOutputFault::ExpectedExport(n))
        } else {
            match find_char(t, '=', 7) {
                None => Err(EnvOutputFault::ExpectedExport(n)),
                Some(e) => {
                    let name = t.subrange(7, e);
                    if !valid_env_name(name) {
                        Err(EnvOutputFault::InvalidKey(name, Some(n)))
                    } else if has_key(acc, name) {
                        Err(EnvOutputFault::DuplicateKey(name))
                    } else {
                        match shell_value(trim(t.subrange(e + 1, t.len() as int)), n) {
                            Err(f) => Err(f),
                            Ok(v) => shell_entries_from(ls, i + 1, acc.push((name, v))),
                        }
                    }
                },
            }
        }
    }
}

/// The entries of shell-format provider output, in order.
pub open spec fn shell_entries(output: Seq<char>) -> Result<Seq<(Seq<char>, Seq<char>)>, EnvOutputFault> {
    shell_entries_from(lines(output), 0, seq![])
}

/// Whether `t` starts with `export `.
fn starts_with_export(t: &Vec<char>) -> (b: bool)
    ensures
        b == (t@.len() >= 7 && t@.subrange(0, 7) == export_prefix()),
{
    if t.len() < 7 {
        return false;
    }
    let b = t[0] == 'e' && t[1] == 'x' && t[2] == 'p' && t[3] == 'o' && t[4] == 'r' && t[5] == 't' && t[6] == ' ';
    if b {
        assert(t@.subrange(0, 7) =~= export_prefix());
    } else {
        assert(t@.subrange(0, 7) != export_prefix()) by {
            if t@.subrange(0, 7) == export_prefix() {
                assert(t@.subrange(0, 7)[0] == t@[0]);
                assert(t@.subrange(0, 7)[1] == t@[1]);
                assert(t@.subrange(0, 7)[2] == t@[2]);
                assert(t@.subrange(0, 7)[3] == t@[3]);
                assert(t@.subrange(0, 7)[4] == t@[4]);
                assert(t@.subrange(0, 7)[5] == t@[5]);
                assert(t@.subrange(0, 7)[6] == t@[6]);
            }
        }
    }
    b
}

/// `v[from..to]` as a new vector.
pub fn sub_chars(v: &Vec<char>, from: usize, to: usize) -> (r: Vec<char>)
    requires
        from <= to <= v@.len(),
    ensures
        r@ == v@.subrange(from as int, to as int),
{
    let mut r: Vec<char> = Vec::new();
    let mut i = from;
    while i < to
        invariant
            from <= i <= to <= v@.len(),
            r@ == v@.subrange(from as int, i as int),
        decreases to - i,
    {
        r.push(v[i]);
        assert(r@ =~= v@.subrange(from as int, i + 1));
        i = i + 1;
    }
    r
}

/// Parses shell-format provider output: `export NAME=VALUE` lines, blank
/// lines and `#` comments.
pub fn parse_shell_env_output(output: &str) -> (r: Result<EnvMap, EnvOutputError>)
    ensures
        r matches Ok(m) ==> shell_entries(output@) == Ok::<Seq<(Seq<char>, Seq<char>)>, EnvOutputFault>(m.pairs()),
        r matches Err(e) ==> shell_entries(output@) == Err::<Seq<(Seq<char>, Seq<char>)>, EnvOutputFault>(e.fault()),
{
    let text = chars_of(output);
    let ls = split_lines(&text);
    let ghost lsv = lines(output@);
    let mut values = EnvMap::new();
    let mut i: usize = 0;
    while i < ls.len()
        invariant
            i <= ls@.len(),
            lsv == lines(output@),
            ls@.len() == lsv.len(),
            forall|k: int| 0 <= k < ls@.len() ==> #[trigger] ls@[k]@ == lsv[k],
            shell_entries(output@) == shell_entries_from(lsv, i as int, values.pairs()),
        decreases ls@.len() - i,
    {
        let line = &ls[i];
        assert(line@ == lsv[i as int]);
        let (a, b) = trim_bounds(line, 0, line.len());
        assert(line@.subrange(0, line@.len() as int) =~= line@);
        let t = sub_chars(line, a, b);
        let n = i + 1;
        if t.len() == 0 || t[0] == '#' {
            i = i + 1;
            continue;
        }
        if !starts_with_export(&t) {
            return Err(EnvOutputError::ExpectedExport { line: n });
        }
        let e = match find_char_exec(&t, '=', 7) {
            Some(e) => e,
            None => {
                return Err(EnvOutputError::ExpectedExport { line: n });
            },
        };
        proof {
            lemma_find_char_bounds(t@, '=', 7);
        }
        let name = string_of_range(&t, 7, e);
        if !is_valid_name_chars(&t, 7, e) {
            return Err(EnvOutputError::InvalidKey { name, line: Some(n) });
        }
        proof {
            use_type_invariant(&values);
            values.lemma_view();
        }
        if values.contains_key(name.as_str()) {
            return Err(EnvOutputError::DuplicateKey { name });
        }
        let (ra, rb) = trim_bounds(&t, e + 1, t.len());
        let value = match parse_shell_value(&t, ra, rb, n) {
            Ok(v) => v,
            Err(err) => {
                return Err(err);
            },
        };
        let ghost acc = values.pairs();
        values.insert(name, value);
        assert(values.pairs() == acc.push((name@, value@)));
        i = i + 1;
    }
    Ok(values)
}

/// The variables after one more entry of a JSON object of provider
/// variables: `value` is the entry's string, or `None` when the JSON value is
/// not a string. The name must be valid and new.
pub open spec fn json_entry_outcome(values: Map<Seq<char>, Seq<char>>, key: Seq<char>, value: Option<Seq<char>>) -> Result<Map<Seq<char>, Seq<char>>, EnvOutputFault> {
    if !valid_env_name(key) {
        Err(EnvOutputFault::InvalidKey(key, None))
    } else if values.contains_key(key) {
        Err(EnvOutputFault::DuplicateKey(key))
    } else {
        match value {
            None => Err(EnvOutputFault::NotAString(key)),
            Some(v) => Ok(values.insert(key, v)),
        }
    }
}

/// Accepts one entry of a JSON object of provider variables (see `json_entry_outcome`).
pub fn accept_json_env_entry(values: &mut EnvMap, key: String, value: Option<String>) -> (r: Result<(), EnvOutputError>)
    ensures
        r is Ok ==> json_entry_outcome(old(values)@, key@, crate::config::opt_view(value)) == Ok::<Map<Seq<char>, Seq<char>>, EnvOutputFault>(final(values)@),
        r matches Err(e) ==> json_entry_outcome(old(values)@, key@, crate::config::opt_view(value)) == Err::<Map<Seq<char>, Seq<char>>, EnvOutputFault>(e.fault())
            && final(values)@ == old(values)@,
{
    if !is_valid_env_name(key.as_str()) {
        return Err(EnvOutputError::InvalidKey { name: key, line: None });
    }
    if values.contains_key(key.as_str()) {
        return Err(EnvOutputError::DuplicateKey { name: key });
    }
    match value {
        None => Err(EnvOutputError::NotAString { name: key }),
        Some(v) => {
            values.insert(key, v);
            Ok(())
        },
    }
}


/// The message of a refused provider output.
pub open spec fn env_output_message(f: EnvOutputFault) -> Seq<char> {
    match f {
        EnvOutputFault::ExpectedExport(line) => "Invalid shell output line "@ + decimal(line) + ": expected export NAME=VALUE"@,
        EnvOutputFault::InvalidKey(name, Some(line)) => "Invalid env key "@ + name + " on line "@ + decimal(line),
        EnvOutputFault::InvalidKey(name, None) => "Invalid env key "@ + name,
        EnvOutputFault::DuplicateKey(name) => "Duplicate env key "@ + name,
        EnvOutputFault::InvalidEscape(line) => "Invalid shell escape on line "@ + decimal(line),
        EnvOutputFault::UnquotedWhitespace(line) => "Unquoted shell value on line "@ + decimal(line) + " cannot contain whitespace"@,
        EnvOutputFault::NotAString(name) => "Value for "@ + name + " must be a string"@,
    }
}

impl EnvOutputError {
    /// The message of this error.
    pub fn message(&self) -> (m: String)
        ensures
            m@ == env_output_message(self.fault()),
    {
        match self {
            EnvOutputError::ExpectedExport { line } => {
                let mut m = String::from_str("Invalid shell output line ");
                push_decimal(&mut m, *line as u64);
                m.append(": expected export NAME=VALUE");
                m
            },
            EnvOutputError::InvalidKey { name, line } => {
                let mut m = String::from_str("Invalid env key ");
                m.append(name.as_str());
                match line {
                    Some(n) => {
                        m.append(" on line ");
                        push_decimal(&mut m, *n as u64);
                    },
                    None => {},
                }
                m
            },
            EnvOutputError::DuplicateKey { name } => {
                let mut m = String::from_str("Duplicate env key ");
                m.append(name.as_str());
                m
            },
            EnvOutputError::InvalidEscape { line } => {
                let mut m = String::from_str("Invalid shell escape on line ");
                push_decimal(&mut m, *line as u64);
                m
            },
            EnvOutputError::UnquotedWhitespace { line } => {
                let mut m = String::from_str("Unquoted shell value on line ");
                push_decimal(&mut m, *line as u64);
                m.append(" cannot contain whitespace");
                m
            },
            EnvOutputError::NotAString { name } => {
                let mut m = String::from_str("Value for ");
                m.append(name.as_str());
                m.append(" must be a string");
                m
            },
        }
    }
}


/// Whether `s` is made of an ASCII letter or `_`, then ASCII letters,
/// digits and `_`.
pub open spec fn name_shaped(s: Seq<char>) -> bool {
    &&& s.len() > 0
    &&& (s[0] == '_' || ('a' <= s[0] && s[0] <= 'z') || ('A' <= s[0] && s[0] <= 'Z'))
    &&& forall|i: int| 1 <= i < s.len() ==> (#[trigger] s[i] == '_' || ('a' <= s[i] && s[i] <= 'z')
        || ('A' <= s[i] && s[i] <= 'Z') || ('0' <= s[i] && s[i] <= '9'))
}

/// The names that the output parsers accept are exactly those made of an
/// ASCII letter or `_`, then ASCII letters, digits and `_`: `S3_BUCKET`
/// and `_X9` are names, `9X`, `A-B` and the empty text are not.
pub proof fn accepted_names_are_name_shaped(s: Seq<char>)
    ensures
        valid_env_name(s) <==> name_shaped(s),
{
    if name_shaped(s) {
        assert forall|i: int| 1 <= i < s.len() implies #[trigger] s[i] == '_' || is_ascii_letter(s[i]) || is_ascii_digit(s[i]) by {
            assert(s[i] == '_' || ('a' <= s[i] && s[i] <= 'z')
                || ('A' <= s[i] && s[i] <= 'Z') || ('0' <= s[i] && s[i] <= '9'));
        }
    }
    if valid_env_name(s) {
        assert forall|i: int| 1 <= i < s.len() implies (#[trigger] s[i] == '_' || ('a' <= s[i] && s[i] <= 'z')
            || ('A' <= s[i] && s[i] <= 'Z') || ('0' <= s[i] && s[i] <= '9')) by {
            assert(s[i] == '_' || is_ascii_letter(s[i]) || is_ascii_digit(s[i]));
        }
    }
}

proof fn lemma_first_char_at(t: Seq<char>, c: char, from: int, at: int)
    requires
        0 <= from <= at < t.len(),
        t[at] == c,
        forall|j: int| from <= j < at ==> t[j] != c,
    ensures
        find_char(t, c, from) == Some(at),
{
    lemma_find_char_bounds(t, c, from);
    match find_char(t, c, from) {
        Some(i) => {
            if i > at {
                assert(t[at] != c);
            }
        },
        None => {
            assert(t[at] != c);
        },
    }
}

proof fn lemma_trim_plain(t: Seq<char>)
    requires
        t.len() == 0 || (!is_white_space(t[0]) && !is_white_space(t.last())),
    ensures
        trim(t) == t,
{
    if t.len() > 0 {
        assert(leading_ws(t) == 0);
        assert(t.subrange(0, t.len() as int) =~= t);
        assert(trailing_ws(t) == 0);
    } else {
        assert(leading_ws(t) == 0);
        assert(t.subrange(0, 0) =~= t);
        assert(trailing_ws(t) == 0);
    }
    assert(trim(t) =~= t);
}

/// A line `export NAME=VALUE` whose name is a letter or `_` followed by
/// letters, digits and `_`, and whose value is unquoted with no white space,
/// parses to that one variable with that value.
pub proof fn export_line_yields_its_variable(name: Seq<char>, value: Seq<char>)
    requires
        name_shaped(name),
        forall|i: int| 0 <= i < value.len() ==> !is_white_space(#[trigger] value[i]),
        value.len() == 0 || (value[0] != '\'' && value[0] != '"'),
    ensures
        shell_entries(seq!['e', 'x', 'p', 'o', 'r', 't', ' '] + name + seq!['='] + value + seq!['\n'])
            == Ok::<Seq<(Seq<char>, Seq<char>)>, EnvOutputFault>(seq![(name, value)]),
{
    let pre = seq!['e', 'x', 'p', 'o', 'r', 't', ' '];
    let line = pre + name + seq!['='] + value;
    let text = line + seq!['\n'];
    let l = line.len() as int;
    let e = 7 + name.len() as int;
    assert forall|j: int| 0 <= j < l implies line[j] != '\n' && line[j] != '\r' by {
        if j < 7 {
            assert(line[j] == pre[j]);
        } else if j < e {
            assert(line[j] == name[j - 7]);
            if j - 7 >= 1 {
                assert(name[j - 7] == '_' || ('a' <= name[j - 7] && name[j - 7] <= 'z')
                    || ('A' <= name[j - 7] && name[j - 7] <= 'Z') || ('0' <= name[j - 7] && name[j - 7] <= '9'));
            }
        } else if j == e {
            assert(line[j] == '=');
        } else {
            assert(line[j] == value[j - e - 1]);
            assert(!is_white_space(value[j - e - 1]));
        }
    }
    assert forall|j: int| 0 <= j < l implies text[j] != '\n' by {
        assert(text[j] == line[j]);
    }
    assert(text[l] == '\n');
    lemma_first_char_at(text, '\n', 0, l);
    assert(text.subrange(0, l) =~= line);
    assert(line.last() != '\r');
    assert(strip_cr(line) == line);
    assert(lines_from(text, l + 1) =~= Seq::<Seq<char>>::empty());
    assert(lines(text) =~= seq![line]);
    assert(line[0] == 'e');
    assert(!is_white_space(line.last())) by {
        if value.len() > 0 {
            assert(line.last() == value[value.len() - 1]);
        } else {
            assert(line.last() == '=');
        }
    }
    lemma_trim_plain(line);
    assert(line.subrange(0, 7) =~= export_prefix());
    assert forall|j: int| 7 <= j < e implies line[j] != '=' by {
        assert(line[j] == name[j - 7]);
        if j - 7 >= 1 {
            assert(name[j - 7] == '_' || ('a' <= name[j - 7] && name[j - 7] <= 'z')
                || ('A' <= name[j - 7] && name[j - 7] <= 'Z') || ('0' <= name[j - 7] && name[j - 7] <= '9'));
        }
    }
    assert(line[e] == '=');
    lemma_first_char_at(line, '=', 7, e);
    assert(line.subrange(7, e) =~= name);
    assert(valid_env_name(name)) by {
        assert forall|i: int| 1 <= i < name.len() implies #[trigger] name[i] == '_' || is_ascii_letter(name[i]) || is_ascii_digit(name[i]) by {
            assert(name[i] == '_' || ('a' <= name[i] && name[i] <= 'z')
                || ('A' <= name[i] && name[i] <= 'Z') || ('0' <= name[i] && name[i] <= '9'));
        }
    }
    assert(!has_key(Seq::<(Seq<char>, Seq<char>)>::empty(), name));
    let raw = line.subrange(e + 1, l);
    assert(raw =~= value);
    if value.len() > 0 {
        assert(!is_white_space(value[0]));
        assert(!is_white_space(value.last()));
    }
    lemma_trim_plain(value);
    assert(!(exists|i: int| 0 <= i < value.len() && is_white_space(#[trigger] value[i])));
    assert(shell_value(trim(raw), 1) == Ok::<Seq<char>, EnvOutputFault>(value));
    let ls = lines(text);
    let empty = Seq::<(Seq<char>, Seq<char>)>::empty();
    assert(ls.len() == 1 && ls[0] == line);
    assert(trim(ls[0]) == line);
    assert(find_char(line, '=', 7) == Some(e));
    assert(shell_entries_from(ls, 1, empty.push((name, value))) == Ok::<Seq<(Seq<char>, Seq<char>)>, EnvOutputFault>(empty.push((name, value))));
    assert(shell_entries_from(ls, 0, empty) == shell_entries_from(ls, 1, empty.push((name, value))));
    assert(empty.push((name, value)) =~= seq![(name, value)]);
    assert(text == seq!['e', 'x', 'p', 'o', 'r', 't', ' '] + name + seq!['='] + value + seq!['\n']);
}

/// An entry whose name is a letter or `_` followed by letters, digits and
/// `_`, not given before, and whose JSON value is a string (any string, the
/// empty one too) is accepted: the variables become the old ones with that
/// name set to that string.
pub proof fn json_string_entry_is_accepted(values: Map<Seq<char>, Seq<char>>, key: Seq<char>, value: Seq<char>)
    requires
        name_shaped(key),
        !values.contains_key(key),
    ensures
        json_entry_outcome(values, key, Some(value)) == Ok::<Map<Seq<char>, Seq<char>>, EnvOutputFault>(values.insert(key, value)),
        json_entry_outcome(values, key, Some(value))->Ok_0[key] == value,
        forall|k: Seq<char>| k != key ==> (#[trigger] json_entry_outcome(values, key, Some(value))->Ok_0.contains_key(k)
            <==> values.contains_key(k)),
{
    assert forall|i: int| 1 <= i < key.len() implies #[trigger] key[i] == '_' || is_ascii_letter(key[i]) || is_ascii_digit(key[i]) by {
        assert(key[i] == '_' || ('a' <= key[i] && key[i] <= 'z')
            || ('A' <= key[i] && key[i] <= 'Z') || ('0' <= key[i] && key[i] <= '9'));
    }
}

proof fn lemma_unescape_plain(a: Seq<char>, t: Seq<char>)
    requires
        forall|i: int| 0 <= i < a.len() ==> #[trigger] a[i] != '\\',
    ensures
        unescape(a + t) == match unescape(t) {
            Some(r) => Some(a + r),
            None => None::<Seq<char>>,
        },
    decreases a.len(),
{
    if a.len() > 0 {
        let rest = a.drop_first();
        assert forall|i: int| 0 <= i < rest.len() implies #[trigger] rest[i] != '\\' by {
            assert(rest[i] == a[i + 1]);
        }
        lemma_unescape_plain(rest, t);
        assert((a + t)[0] == a[0]);
        assert((a + t).drop_first() =~= rest + t);
        if unescape(t) is Some {
            assert(seq![a[0]] + (rest + unescape(t)->Some_0) =~= a + unescape(t)->Some_0);
        }
    } else {
        assert(a + t =~= t);
        if unescape(t) is Some {
            assert(a + unescape(t)->Some_0 =~= unescape(t)->Some_0);
        }
    }
}

/// In a double-quoted value, a backslash and the next character stand for
/// one character: `\n` a newline, `\r` a carriage return, `\t` a tab, and any
/// other character itself (so `\\`, `\"` and `\$` give `\`, `"` and `$`);
/// text around it without backslashes is kept as it is.
pub proof fn quoted_escapes_are_decoded(a: Seq<char>, x: char, b: Seq<char>, line: nat)
    requires
        forall|i: int| 0 <= i < a.len() ==> #[trigger] a[i] != '\\',
        forall|i: int| 0 <= i < b.len() ==> #[trigger] b[i] != '\\',
    ensures
        shell_value(seq!['"'] + a + seq!['\\', x] + b + seq!['"'], line) == Ok::<Seq<char>, EnvOutputFault>(
            a + seq![if x == 'n' { '\n' } else if x == 'r' { '\r' } else if x == 't' { '\t' } else { x }] + b),
{
    let raw = seq!['"'] + a + seq!['\\', x] + b + seq!['"'];
    let inner = a + seq!['\\', x] + b;
    assert(raw.subrange(1, raw.len() - 1) =~= inner);
    assert(raw[0] == '"' && raw.last() == '"');
    lemma_unescape_plain(b, Seq::<char>::empty());
    assert(b + Seq::<char>::empty() =~= b);
    assert(unescape(Seq::<char>::empty()) == Some(Seq::<char>::empty()));
    let esc = seq!['\\', x] + b;
    assert(esc[0] == '\\' && esc[1] == x);
    assert(esc.subrange(2, esc.len() as int) =~= b);
    assert(unescape(esc) == Some(seq![escaped_char(x)] + b));
    assert(inner =~= a + esc);
    lemma_unescape_plain(a, esc);
    assert(a + (seq![escaped_char(x)] + b) =~= a + seq![escaped_char(x)] + b);
}

} // verus!

//! `${VAR}` interpolation of configuration strings, and the resolution of an
//! environment table whose values refer to each other, with cycle detection.
use vstd::prelude::*;
use crate::env_map::{EnvMap, pairs_map, has_key, unique_keys, lemma_pairs_map};
use crate::text::{join_with, join_strings, chars_of, push_range, string_of_range, find_char, find_char_exec, lemma_find_char_bounds};

verus! {

/// Why an interpolation failed, over character sequences.
pub enum InterpFault {
    /// A `${` without a closing `}` in the template.
    Unclosed(Seq<char>),
    /// `${}` in the template.
    Empty(Seq<char>),
    /// A name (first) that no scope defines, in the template (second).
    Unknown(Seq<char>, Seq<char>),
    /// The names being resolved when one of them was met again, ending with that name.
    Cycle(Seq<Seq<char>>),
    /// A name to resolve that the table does not hold.
    Missing(Seq<char>),
}

/// Why an interpolation failed.
#[derive(Debug)]
pub enum InterpolationError {
    /// A `${` without a closing `}`.
    Unclosed { template: String },
    /// `${}`.
    Empty { template: String },
    /// `${name}` where no scope defines `name`.
    Unknown { name: String, template: String },
    /// A variable that refers back to itself; `path` ends with the repeated name.
    Cycle { path: Vec<String> },
}

impl InterpolationError {
    /// The failure this error reports.
    pub open spec fn fault(&self) -> InterpFault {
        match self {
            InterpolationError::Unclosed { template } => InterpFault::Unclosed(template@),
            InterpolationError::Empty { template } => InterpFault::Empty(template@),
            InterpolationError::Unknown { name, template } => InterpFault::Unknown(
                name@,
                template@,
            ),
            InterpolationError::Cycle { path } => InterpFault::Cycle(
                path@.map_values(|s: String| s@),
            ),
        }
    }
}

/// Whether `${` starts at index `i` of `t`.
pub open spec fn opens_at(t: Seq<char>, i: int) -> bool {
    0 <= i && i + 1 < t.len() && t[i] == '$' && t[i + 1] == '{'
}

/// Index of the first `${` in `t` at or after `from`, if any.
pub open spec fn find_open(t: Seq<char>, from: int) -> Option<int>
    decreases t.len() - from,
{
    if from < 0 || from + 1 >= t.len() {
        None
    } else if opens_at(t, from) {
        Some(from)
    } else {
        find_open(t, from + 1)
    }
}

pub proof fn lemma_find_open_bounds(t: Seq<char>, from: int)
    ensures
        find_open(t, from) matches Some(i) ==> from <= i && opens_at(t, i),
    decreases t.len() - from,
{
    if from >= 0 && from + 1 < t.len() && !opens_at(t, from) {
        lemma_find_open_bounds(t, from + 1);
    }
}

/// Prefixes the text of a successful result with `a`; a failure stays as it is.
pub open spec fn prepend(a: Seq<char>, r: Result<Seq<char>, InterpFault>) -> Result<Seq<char>, InterpFault> {
    match r {
        Ok(x) => Ok(a + x),
        Err(f) => Err(f),
    }
}

/// Interpolation of `t` from index `cursor` on, each `${name}` replaced by `scope[name]`.
/// Scanning goes left to right and stops at the first failure.
pub open spec fn interpolate_from(t: Seq<char>, cursor: int, scope: Map<Seq<char>, Seq<char>>) -> Result<Seq<char>, InterpFault>
    decreases t.len() - cursor,
{
    if cursor < 0 || cursor > t.len() {
        Ok(seq![])
    } else {
        match find_open(t, cursor) {
            None => Ok(t.subrange(cursor, t.len() as int)),
            Some(s) => {
                match find_char(t, '}', s + 2) {
                    None => Err(InterpFault::Unclosed(t)),
                    Some(e) => {
                        proof {
                            lemma_find_open_bounds(t, cursor);
                            lemma_find_char_bounds(t, '}', s + 2);
                        }
                        let name = t.subrange(s + 2, e);
                        if name.len() == 0 {
                            Err(InterpFault::Empty(t))
                        } else if !scope.contains_key(name) {
                            Err(InterpFault::Unknown(name, t))
                        } else {
                            prepend(t.subrange(cursor, s) + scope[name], interpolate_from(t, e + 1, scope))
                        }
                    },
                }
            },
        }
    }
}

/// `t` with each `${name}` replaced by `scope[name]`.
pub open spec fn interpolate(t: Seq<char>, scope: Map<Seq<char>, Seq<char>>) -> Result<Seq<char>, InterpFault> {
    interpolate_from(t, 0, scope)
}

/// Index of the first `${` in `t` at or after `from`, if any.
pub fn find_open_exec(t: &Vec<char>, from: usize) -> (r: Option<usize>)
    requires
        from <= t@.len(),
    ensures
        r matches Some(i) ==> find_open(t@, from as int) == Some(i as int),
        r is None ==> find_open(t@, from as int) is None,
{
    let mut i = from;
    while t.len() > 1 && i < t.len() - 1
        invariant
            from <= i <= t@.len(),
            find_open(t@, from as int) == find_open(t@, i as int),
        decreases t@.len() - i,
    {
        if t[i] == '$' && t[i + 1] == '{' {
            return Some(i);
        }
        i = i + 1;
    }
    None
}

/// Replaces each `${name}` in `template` with the value `scope` gives `name`.
pub fn interpolate_string(template: &String, scope: &EnvMap) -> (r: Result<String, InterpolationError>)
    ensures
        r matches Ok(s) ==> interpolate(template@, scope@) == Ok::<Seq<char>, InterpFault>(s@),
        r matches Err(e) ==> interpolate(template@, scope@) == Err::<Seq<char>, InterpFault>(e.fault()),
{
    let t = chars_of(template.as_str());
    let n = t.len();
    let mut out = String::new();
    let mut cursor: usize = 0;
    assert(out@ + t@.subrange(0, 0) =~= seq![]);
    loop
        invariant
            cursor <= t@.len(),
            n == t@.len(),
            t@ == template@,
            interpolate(t@, scope@) == prepend(out@, interpolate_from(t@, cursor as int, scope@)),
        decreases t@.len() - cursor,
    {
        match find_open_exec(&t, cursor) {
            None => {
                push_range(&mut out, &t, cursor, t.len());
                return Ok(out);
            },
            Some(s) => {
                proof {
                    lemma_find_open_bounds(t@, cursor as int);
                }
                match find_char_exec(&t, '}', s + 2) {
                    None => {
                        return Err(InterpolationError::Unclosed { template: template.clone() });
                    },
                    Some(e) => {
                        proof {
                            lemma_find_char_bounds(t@, '}', s + 2);
                        }
                        if e == s + 2 {
                            return Err(InterpolationError::Empty { template: template.clone() });
                        }
                        let name = string_of_range(&t, s + 2, e);
                        match scope.get(name.as_str()) {
                            None => {
                                return Err(
                                    InterpolationError::Unknown { name, template: template.clone() },
                                );
                            },
                            Some(v) => {
                                let ghost before = out@;
                                push_range(&mut out, &t, cursor, s);
                                out.append(v.as_str());
                                let ghost piece = t@.subrange(cursor as int, s as int) + scope@[name@];
                                assert(out@ == before + piece);
                                assert(interpolate_from(t@, cursor as int, scope@) == prepend(
                                    piece,
                                    interpolate_from(t@, e + 1, scope@),
                                ));
                                proof {
                                    match interpolate_from(t@, e + 1, scope@) {
                                        Ok(x) => {
                                            assert(before + (piece + x) =~= out@ + x);
                                        },
                                        Err(_) => {},
                                    }
                                }
                                cursor = e + 1;
                            },
                        }
                    },
                }
            },
        }
    }
}


/// The character sequences of a list of strings.
pub open spec fn names(v: Seq<String>) -> Seq<Seq<char>> {
    v.map_values(|s: String| s@)
}

/// Resolution of the table entry `key`: its template interpolated, where a
/// name the table holds is resolved the same way (first) and any other name
/// is looked up in `base`. `visiting` holds the names under resolution.
pub open spec fn resolve_key(
    p: Seq<(Seq<char>, Seq<char>)>,
    base: Map<Seq<char>, Seq<char>>,
    key: Seq<char>,
    visiting: Seq<Seq<char>>,
) -> Result<Seq<char>, InterpFault>
    decreases p.len() - visiting.len(), 0int, 0int,
{
    if visiting.contains(key) {
        Err(InterpFault::Cycle(visiting.push(key)))
    } else if visiting.len() >= p.len() || !pairs_map(p).contains_key(key) {
        Err(InterpFault::Missing(key))
    } else {
        resolve_from(p, base, pairs_map(p)[key], 0, visiting.push(key))
    }
}

/// The value a name gets while resolving the table `p` over `base`.
pub open spec fn lookup_name(
    p: Seq<(Seq<char>, Seq<char>)>,
    base: Map<Seq<char>, Seq<char>>,
    name: Seq<char>,
    t: Seq<char>,
    visiting: Seq<Seq<char>>,
) -> Result<Seq<char>, InterpFault>
    decreases p.len() - visiting.len(), 1int, 0int,
{
    if pairs_map(p).contains_key(name) {
        resolve_key(p, base, name, visiting)
    } else if base.contains_key(name) {
        Ok(base[name])
    } else {
        Err(InterpFault::Unknown(name, t))
    }
}

/// Interpolation of `t` from index `cursor` on, names looked up with `lookup_name`.
pub open spec fn resolve_from(
    p: Seq<(Seq<char>, Seq<char>)>,
    base: Map<Seq<char>, Seq<char>>,
    t: Seq<char>,
    cursor: int,
    visiting: Seq<Seq<char>>,
) -> Result<Seq<char>, InterpFault>
    decreases p.len() - visiting.len(), 2int, t.len() - cursor,
{
    if cursor < 0 || cursor > t.len() {
        Ok(seq![])
    } else {
        match find_open(t, cursor) {
            None => Ok(t.subrange(cursor, t.len() as int)),
            Some(s) => {
                match find_char(t, '}', s + 2) {
                    None => Err(InterpFault::Unclosed(t)),
                    Some(e) => {
                        proof {
                            lemma_find_open_bounds(t, cursor);
                            lemma_find_char_bounds(t, '}', s + 2);
                        }
                        let name = t.subrange(s + 2, e);
                        if name.len() == 0 {
                            Err(InterpFault::Empty(t))
                        } else {
                            match lookup_name(p, base, name, t, visiting) {
                                Err(f) => Err(f),
                                Ok(v) => prepend(
                                    t.subrange(cursor, s) + v,
                                    resolve_from(p, base, t, e + 1, visiting),
                                ),
                            }
                        }
                    },
                }
            },
        }
    }
}

/// Names that are distinct and all held by the table are shorter than it,
/// so one more held name still fits.
proof fn lemma_visiting_shorter(p: Seq<(Seq<char>, Seq<char>)>, vis: Seq<Seq<char>>, key: Seq<char>)
    requires
        vis.no_duplicates(),
        forall|i: int| 0 <= i < vis.len() ==> has_key(p, #[trigger] vis[i]),
        has_key(p, key),
        !vis.contains(key),
    ensures
        vis.len() < p.len(),
{
    let s = vis.push(key);
    assert(s.no_duplicates()) by {
        assert forall|i: int, j: int| 0 <= i < s.len() && 0 <= j < s.len() && i != j implies s[i] != s[j] by {
            if i == vis.len() {
                assert(vis[j] == s[j]);
            } else if j == vis.len() {
                assert(vis[i] == s[i]);
            }
        }
    }
    s.unique_seq_to_set();
    let ks = p.map_values(|e: (Seq<char>, Seq<char>)| e.0);
    assert(s.to_set().subset_of(ks.to_set())) by {
        assert forall|x: Seq<char>| s.to_set().contains(x) implies ks.to_set().contains(x) by {
            let i = choose|i: int| 0 <= i < s.len() && s[i] == x;
            assert(has_key(p, s[i]));
            let j = choose|j: int| 0 <= j < p.len() && p[j].0 == x;
            assert(ks[j] == x);
        }
    }
    vstd::seq_lib::seq_to_set_is_finite(ks);
    vstd::set_lib::lemma_len_subset(s.to_set(), ks.to_set());
    ks.lemma_cardinality_of_set();
}

/// Whether `name` is one of `v`.
fn contains_name(v: &Vec<String>, name: &String) -> (b: bool)
    ensures
        b == names(v@).contains(name@),
{
    let mut i: usize = 0;
    while i < v.len()
        invariant
            i <= v@.len(),
            forall|j: int| 0 <= j < i ==> v@[j]@ != name@,
        decreases v@.len() - i,
    {
        if v[i] == *name {
            assert(names(v@)[i as int] == name@);
            return true;
        }
        i = i + 1;
    }
    proof {
        if names(v@).contains(name@) {
            let j = choose|j: int| 0 <= j < names(v@).len() && names(v@)[j] == name@;
            assert(v@[j]@ == name@);
        }
    }
    false
}

/// `v` followed by `name`, as a new list.
fn with_name(v: &Vec<String>, name: &String) -> (r: Vec<String>)
    ensures
        names(r@) == names(v@).push(name@),
{
    let mut r: Vec<String> = Vec::new();
    let mut i: usize = 0;
    while i < v.len()
        invariant
            i <= v@.len(),
            r@.len() == i,
            forall|j: int| 0 <= j < i ==> #[trigger] r@[j]@ == v@[j]@,
        decreases v@.len() - i,
    {
        r.push(v[i].clone());
        i = i + 1;
    }
    r.push(name.clone());
    assert(names(r@) =~= names(v@).push(name@));
    r
}

/// Resolves the table entry `key` (see `resolve_key`).
pub fn resolve_env_key(key: &String, values: &EnvMap, base: &EnvMap, visiting: &Vec<String>) -> (r: Result<String, InterpolationError>)
    requires
        has_key(values.pairs(), key@),
        names(visiting@).no_duplicates(),
        forall|i: int| 0 <= i < visiting@.len() ==> has_key(values.pairs(), #[trigger] names(visiting@)[i]),
    ensures
        r matches Ok(s) ==> resolve_key(values.pairs(), base@, key@, names(visiting@)) == Ok::<Seq<char>, InterpFault>(s@),
        r matches Err(e) ==> resolve_key(values.pairs(), base@, key@, names(visiting@)) == Err::<Seq<char>, InterpFault>(e.fault()),
    decreases values.pairs().len() - visiting@.len(),
{
    let ghost p = values.pairs();
    let ghost vis = names(visiting@);
    proof {
        use_type_invariant(values);
        values.lemma_view();
    }
    if contains_name(visiting, key) {
        let path = with_name(visiting, key);
        return Err(InterpolationError::Cycle { path });
    }
    proof {
        lemma_visiting_shorter(p, vis, key@);
    }
    let idx = match values.find(key.as_str()) {
        Some(i) => i,
        None => {
            proof {
                assert(false);
            }
            0
        },
    };
    let template = values.value_at(idx);
    let next = with_name(visiting, key);
    let ghost nv = names(next@);
    assert(nv == vis.push(key@));
    assert(nv.no_duplicates()) by {
        assert forall|i: int, j: int| 0 <= i < nv.len() && 0 <= j < nv.len() && i != j implies nv[i] != nv[j] by {
            if i == vis.len() {
                assert(vis[j] == nv[j]);
            } else if j == vis.len() {
                assert(vis[i] == nv[i]);
            }
        }
    }
    assert forall|i: int| 0 <= i < next@.len() implies has_key(p, #[trigger] names(next@)[i]) by {
        if i < vis.len() {
            assert(nv[i] == vis[i]);
        }
    }
    let t = chars_of(template.as_str());
    let n = t.len();
    let mut out = String::new();
    let mut cursor: usize = 0;
    assert(pairs_map(p)[key@] == t@);
    assert(resolve_key(p, base@, key@, vis) == resolve_from(p, base@, t@, 0, nv));
    assert(out@ + t@.subrange(0, 0) =~= seq![]);
    loop
        invariant
            cursor <= t@.len(),
            n == t@.len(),
            p == values.pairs(),
            vis == names(visiting@),
            t@ == template@,
            nv == names(next@),
            nv.len() <= p.len(),
            nv.no_duplicates(),
            forall|i: int| 0 <= i < next@.len() ==> has_key(values.pairs(), #[trigger] names(next@)[i]),
            values.pairs().len() - next@.len() < values.pairs().len() - visiting@.len(),
            resolve_key(p, base@, key@, vis) == prepend(out@, resolve_from(p, base@, t@, cursor as int, nv)),
        decreases t@.len() - cursor,
    {
        proof {
            use_type_invariant(values);
            values.lemma_view();
        }
        match find_open_exec(&t, cursor) {
            None => {
                let ghost before = out@;
                push_range(&mut out, &t, cursor, t.len());
                assert(resolve_from(p, base@, t@, cursor as int, nv) == Ok::<Seq<char>, InterpFault>(
                    t@.subrange(cursor as int, t@.len() as int),
                ));
                return Ok(out);
            },
            Some(s) => {
                proof {
                    lemma_find_open_bounds(t@, cursor as int);
                }
                match find_char_exec(&t, '}', s + 2) {
                    None => {
                        return Err(InterpolationError::Unclosed { template: template.clone() });
                    },
                    Some(e) => {
                        proof {
                            lemma_find_char_bounds(t@, '}', s + 2);
                        }
                        if e == s + 2 {
                            return Err(InterpolationError::Empty { template: template.clone() });
                        }
                        let name = string_of_range(&t, s + 2, e);
                        let value = if values.contains_key(name.as_str()) {
                            proof {
                                assert(has_key(p, name@));
                            }
                            match resolve_env_key(&name, values, base, &next) {
                                Ok(v) => v,
                                Err(err) => {
                                    return Err(err);
                                },
                            }
                        } else {
                            match base.get(name.as_str()) {
                                Some(v) => v.clone(),
                                None => {
                                    return Err(
                                        InterpolationError::Unknown { name, template: template.clone() },
                                    );
                                },
                            }
                        };
                        assert(lookup_name(p, base@, name@, t@, nv) == Ok::<Seq<char>, InterpFault>(value@));
                        let ghost before = out@;
                        push_range(&mut out, &t, cursor, s);
                        out.append(value.as_str());
                        let ghost piece = t@.subrange(cursor as int, s as int) + value@;
                        assert(out@ == before + piece);
                        assert(resolve_from(p, base@, t@, cursor as int, nv) == prepend(
                            piece,
                            resolve_from(p, base@, t@, e + 1, nv),
                        ));
                        proof {
                            match resolve_from(p, base@, t@, e + 1, nv) {
                                Ok(x) => {
                                    assert(before + (piece + x) =~= out@ + x);
                                },
                                Err(_) => {},
                            }
                        }
                        cursor = e + 1;
                    },
                }
            },
        }
    }
}


/// Prefixes the entries of a successful result with `a`; a failure stays as it is.
pub open spec fn prepend_entries(
    a: Seq<(Seq<char>, Seq<char>)>,
    r: Result<Seq<(Seq<char>, Seq<char>)>, InterpFault>,
) -> Result<Seq<(Seq<char>, Seq<char>)>, InterpFault> {
    match r {
        Ok(x) => Ok(a + x),
        Err(f) => Err(f),
    }
}

/// Resolution of the entries of `p` from index `from` on, in order; the
/// first entry that fails decides the failure.
pub open spec fn resolve_entries_from(
    p: Seq<(Seq<char>, Seq<char>)>,
    base: Map<Seq<char>, Seq<char>>,
    from: int,
) -> Result<Seq<(Seq<char>, Seq<char>)>, InterpFault>
    decreases p.len() - from,
{
    if from < 0 || from >= p.len() {
        Ok(seq![])
    } else {
        match resolve_key(p, base, p[from].0, seq![]) {
            Err(f) => Err(f),
            Ok(v) => prepend_entries(seq![(p[from].0, v)], resolve_entries_from(p, base, from + 1)),
        }
    }
}

/// Resolution of every entry of the table `p` over `base`: each name keeps its
/// place and gets its resolved value.
pub open spec fn resolve_entries(
    p: Seq<(Seq<char>, Seq<char>)>,
    base: Map<Seq<char>, Seq<char>>,
) -> Result<Seq<(Seq<char>, Seq<char>)>, InterpFault> {
    resolve_entries_from(p, base, 0)
}

/// Resolves every entry of `values`, whose templates may refer to each other
/// and to `base`.
pub fn resolve_env_map(values: &EnvMap, base: &EnvMap) -> (r: Result<EnvMap, InterpolationError>)
    ensures
        r matches Ok(m) ==> resolve_entries(values.pairs(), base@) == Ok::<Seq<(Seq<char>, Seq<char>)>, InterpFault>(m.pairs()),
        r matches Err(e) ==> resolve_entries(values.pairs(), base@) == Err::<Seq<(Seq<char>, Seq<char>)>, InterpFault>(e.fault()),
{
    let ghost p = values.pairs();
    proof {
        use_type_invariant(values);
    }
    let mut resolved = EnvMap::new();
    let visiting: Vec<String> = Vec::new();
    let mut i: usize = 0;
    proof {
        match resolve_entries_from(p, base@, 0) {
            Ok(x) => {
                assert(resolved.pairs() + x =~= x);
            },
            Err(_) => {},
        }
    }
    assert(names(visiting@) =~= Seq::<Seq<char>>::empty());
    while i < values.len()
        invariant
            i <= p.len(),
            p == values.pairs(),
            unique_keys(p),
            names(visiting@) == Seq::<Seq<char>>::empty(),
            resolved.pairs().len() == i,
            forall|j: int| 0 <= j < i ==> #[trigger] resolved.pairs()[j].0 == p[j].0,
            resolve_entries(p, base@) == prepend_entries(resolved.pairs(), resolve_entries_from(p, base@, i as int)),
        decreases p.len() - i,
    {
        let key = values.key_at(i);
        assert(has_key(p, key@)) by {
            assert(p[i as int].0 == key@);
        }
        let value = match resolve_env_key(key, values, base, &visiting) {
            Ok(v) => v,
            Err(e) => {
                return Err(e);
            },
        };
        let ghost before = resolved.pairs();
        assert(!has_key(before, key@)) by {
            if has_key(before, key@) {
                let j = choose|j: int| 0 <= j < before.len() && before[j].0 == key@;
                assert(p[j].0 == p[i as int].0);
            }
        }
        resolved.insert(key.clone(), value);
        assert(resolve_entries_from(p, base@, i as int) == prepend_entries(
            seq![(key@, value@)],
            resolve_entries_from(p, base@, i + 1),
        ));
        proof {
            match resolve_entries_from(p, base@, i + 1) {
                Ok(x) => {
                    assert(before + (seq![(key@, value@)] + x) =~= resolved.pairs() + x);
                },
                Err(_) => {},
            }
        }
        i = i + 1;
    }
    assert(resolve_entries_from(p, base@, i as int) == Ok::<Seq<(Seq<char>, Seq<char>)>, InterpFault>(seq![]));
    assert(resolved.pairs() + seq![] =~= resolved.pairs());
    Ok(resolved)
}


/// The message of a failed interpolation.
pub open spec fn interp_message(f: InterpFault) -> Seq<char> {
    match f {
        InterpFault::Unclosed(t) => "Unclosed ENV interpolation in "@ + t,
        InterpFault::Empty(t) => "Empty ENV interpolation in "@ + t,
        InterpFault::Unknown(n, t) => "Unknown ENV variable "@ + n + " in "@ + t,
        InterpFault::Cycle(path) => "ENV interpolation cycle detected: "@ + join_with(path, " -> "@),
        InterpFault::Missing(k) => "Missing env key "@ + k + " during interpolation"@,
    }
}

impl InterpolationError {
    /// The message of this error.
    pub fn message(&self) -> (m: String)
        ensures
            m@ == interp_message(self.fault()),
    {
        match self {
            InterpolationError::Unclosed { template } => {
                let mut m = String::from_str("Unclosed ENV interpolation in ");
                m.append(template.as_str());
                m
            },
            InterpolationError::Empty { template } => {
                let mut m = String::from_str("Empty ENV interpolation in ");
                m.append(template.as_str());
                m
            },
            InterpolationError::Unknown { name, template } => {
                let mut m = String::from_str("Unknown ENV variable ");
                m.append(name.as_str());
                m.append(" in ");
                m.append(template.as_str());
                m
            },
            InterpolationError::Cycle { path } => {
                let mut m = String::from_str("ENV interpolation cycle detected: ");
                let joined = join_strings(path, " -> ");
                m.append(joined.as_str());
                m
            },
        }
    }
}


proof fn lemma_no_open(t: Seq<char>, from: int)
    requires
        0 <= from,
        forall|i: int| 0 <= i ==> !opens_at(t, i),
    ensures
        find_open(t, from) is None,
    decreases t.len() - from,
{
    if from + 1 < t.len() {
        lemma_no_open(t, from + 1);
    }
}

/// A template with no `${` in it interpolates to itself, whatever the scope.
pub proof fn plain_template_is_unchanged(t: Seq<char>, scope: Map<Seq<char>, Seq<char>>)
    requires
        forall|i: int| 0 <= i ==> !opens_at(t, i),
    ensures
        interpolate(t, scope) == Ok::<Seq<char>, InterpFault>(t),
{
    lemma_no_open(t, 0);
    assert(t.subrange(0, t.len() as int) =~= t);
}

/// A template that is one `${name}` whose name the scope holds interpolates
/// to that name's value.
pub proof fn single_reference_is_replaced(name: Seq<char>, scope: Map<Seq<char>, Seq<char>>)
    requires
        name.len() > 0,
        scope.contains_key(name),
        forall|i: int| 0 <= i < name.len() ==> name[i] != '}',
    ensures
        interpolate(seq!['$', '{'] + name + seq!['}'], scope) == Ok::<Seq<char>, InterpFault>(scope[name]),
{
    let t = seq!['$', '{'] + name + seq!['}'];
    let e = t.len() - 1;
    assert(opens_at(t, 0));
    assert(find_open(t, 0) == Some(0int));
    assert forall|j: int| 2 <= j < e implies t[j] != '}' by {
        assert(t[j] == name[j - 2]);
    }
    assert(t[e] == '}');
    assert(find_char(t, '}', 2) == Some(e)) by {
        lemma_find_char_bounds(t, '}', 2);
        let r = find_char(t, '}', 2);
        if r is None {
            assert(t[e] != '}');
        }
    }
    assert(t.subrange(2, e) =~= name);
    assert(find_open(t, e + 1) is None);
    assert(t.subrange(e + 1, t.len() as int) =~= Seq::<char>::empty());
    assert(interpolate_from(t, e + 1, scope) == Ok::<Seq<char>, InterpFault>(Seq::<char>::empty()));
    assert(t.subrange(0, 0) + scope[name] + Seq::<char>::empty() =~= scope[name]);
    assert(interpolate_from(t, 0, scope) == prepend(t.subrange(0, 0) + scope[name], interpolate_from(t, e + 1, scope)));
}


proof fn lemma_entries_from(p: Seq<(Seq<char>, Seq<char>)>, base: Map<Seq<char>, Seq<char>>, from: int)
    requires
        0 <= from <= p.len(),
        resolve_entries_from(p, base, from) is Ok,
    ensures
        resolve_entries_from(p, base, from)->Ok_0.len() == p.len() - from,
        forall|i: int| from <= i < p.len() ==> #[trigger] resolve_entries_from(p, base, from)->Ok_0[i - from].0 == p[i].0
            && resolve_key(p, base, p[i].0, seq![]) == Ok::<Seq<char>, InterpFault>(resolve_entries_from(p, base, from)->Ok_0[i - from].1),
    decreases p.len() - from,
{
    if from < p.len() {
        lemma_entries_from(p, base, from + 1);
        let whole = resolve_entries_from(p, base, from)->Ok_0;
        let rest = resolve_entries_from(p, base, from + 1)->Ok_0;
        let v = resolve_key(p, base, p[from].0, seq![])->Ok_0;
        assert(whole == seq![(p[from].0, v)] + rest);
        assert forall|i: int| from <= i < p.len() implies #[trigger] whole[i - from].0 == p[i].0
            && resolve_key(p, base, p[i].0, seq![]) == Ok::<Seq<char>, InterpFault>(whole[i - from].1) by {
            if i > from {
                assert(whole[i - from] == rest[i - (from + 1)]);
            }
        }
    }
}

/// A resolved table keeps every name in its place, each with the value its
/// own resolution gives.
pub proof fn resolved_table_keeps_its_names(p: Seq<(Seq<char>, Seq<char>)>, base: Map<Seq<char>, Seq<char>>)
    requires
        resolve_entries(p, base) is Ok,
    ensures
        resolve_entries(p, base)->Ok_0.len() == p.len(),
        forall|i: int| 0 <= i < p.len() ==> #[trigger] resolve_entries(p, base)->Ok_0[i].0 == p[i].0
            && resolve_key(p, base, p[i].0, seq![]) == Ok::<Seq<char>, InterpFault>(resolve_entries(p, base)->Ok_0[i].1),
{
    lemma_entries_from(p, base, 0);
    let r = resolve_entries(p, base)->Ok_0;
    assert forall|i: int| 0 <= i < p.len() implies #[trigger] r[i].0 == p[i].0
        && resolve_key(p, base, p[i].0, seq![]) == Ok::<Seq<char>, InterpFault>(r[i].1) by {
        assert(r[i - 0] == r[i]);
    }
}

/// An entry whose value holds no `${` resolves to that value.
pub proof fn plain_entry_resolves_to_itself(p: Seq<(Seq<char>, Seq<char>)>, base: Map<Seq<char>, Seq<char>>, i: int)
    requires
        unique_keys(p),
        0 <= i < p.len(),
        forall|j: int| 0 <= j ==> !opens_at(p[i].1, j),
    ensures
        resolve_key(p, base, p[i].0, seq![]) == Ok::<Seq<char>, InterpFault>(p[i].1),
{
    lemma_pairs_map(p);
    assert(has_key(p, p[i].0));
    lemma_no_open(p[i].1, 0);
    assert(p[i].1.subrange(0, p[i].1.len() as int) =~= p[i].1);
    assert(seq![].push(p[i].0).len() == 1);
}

/// An entry whose value is exactly a reference to itself is a cycle, reported
/// as that name twice.
pub proof fn self_reference_is_a_cycle(p: Seq<(Seq<char>, Seq<char>)>, base: Map<Seq<char>, Seq<char>>, i: int)
    requires
        unique_keys(p),
        0 <= i < p.len(),
        p[i].0.len() > 0,
        forall|j: int| 0 <= j < p[i].0.len() ==> p[i].0[j] != '}',
        p[i].1 == seq!['$', '{'] + p[i].0 + seq!['}'],
    ensures
        resolve_key(p, base, p[i].0, seq![]) == Err::<Seq<char>, InterpFault>(InterpFault::Cycle(seq![p[i].0, p[i].0])),
{
    lemma_pairs_map(p);
    assert(has_key(p, p[i].0));
    let k = p[i].0;
    let t = p[i].1;
    let e = t.len() - 1;
    assert(opens_at(t, 0));
    assert(find_open(t, 0) == Some(0int));
    assert forall|j: int| 2 <= j < e implies t[j] != '}' by {
        assert(t[j] == k[j - 2]);
    }
    assert(t[e] == '}');
    assert(find_char(t, '}', 2) == Some(e)) by {
        lemma_find_char_bounds(t, '}', 2);
        if find_char(t, '}', 2) is None {
            assert(t[e] != '}');
        }
    }
    assert(t.subrange(2, e) =~= k);
    let visiting = seq![k];
    assert(seq![].push(k) =~= visiting);
    assert(visiting[0] == k);
    assert(visiting.contains(k));
    assert(visiting.push(k) =~= seq![k, k]);
    assert(lookup_name(p, base, k, t, visiting) == resolve_key(p, base, k, visiting));
}


/// Fewer names under resolution never turn a successful resolution of a
/// name into another result.
proof fn lemma_key_shrink(
    p: Seq<(Seq<char>, Seq<char>)>,
    base: Map<Seq<char>, Seq<char>>,
    key: Seq<char>,
    vis: Seq<Seq<char>>,
    vis2: Seq<Seq<char>>,
)
    requires
        resolve_key(p, base, key, vis) is Ok,
        forall|x: Seq<char>| vis2.contains(x) ==> vis.contains(x),
        vis2.len() <= vis.len(),
    ensures
        resolve_key(p, base, key, vis2) == resolve_key(p, base, key, vis),
    decreases p.len() - vis.len(), 0int, 0int,
{
    let v1 = vis.push(key);
    let v2 = vis2.push(key);
    assert forall|x: Seq<char>| v2.contains(x) implies v1.contains(x) by {
        if x == key {
            assert(v1[vis.len() as int] == key);
        } else {
            let j = choose|j: int| 0 <= j < v2.len() && v2[j] == x;
            assert(vis2[j] == x);
            assert(vis2.contains(x));
            let q = choose|q: int| 0 <= q < vis.len() && vis[q] == x;
            assert(v1[q] == x);
        }
    }
    if vis2.contains(key) {
        assert(vis.contains(key));
    }
    lemma_from_shrink(p, base, pairs_map(p)[key], 0, v1, v2);
}

proof fn lemma_lookup_shrink(
    p: Seq<(Seq<char>, Seq<char>)>,
    base: Map<Seq<char>, Seq<char>>,
    name: Seq<char>,
    t: Seq<char>,
    vis: Seq<Seq<char>>,
    vis2: Seq<Seq<char>>,
)
    requires
        lookup_name(p, base, name, t, vis) is Ok,
        forall|x: Seq<char>| vis2.contains(x) ==> vis.contains(x),
        vis2.len() <= vis.len(),
    ensures
        lookup_name(p, base, name, t, vis2) == lookup_name(p, base, name, t, vis),
    decreases p.len() - vis.len(), 1int, 0int,
{
    if pairs_map(p).contains_key(name) {
        lemma_key_shrink(p, base, name, vis, vis2);
    }
}

proof fn lemma_from_shrink(
    p: Seq<(Seq<char>, Seq<char>)>,
    base: Map<Seq<char>, Seq<char>>,
    t: Seq<char>,
    cursor: int,
    vis: Seq<Seq<char>>,
    vis2: Seq<Seq<char>>,
)
    requires
        resolve_from(p, base, t, cursor, vis) is Ok,
        forall|x: Seq<char>| vis2.contains(x) ==> vis.contains(x),
        vis2.len() <= vis.len(),
    ensures
        resolve_from(p, base, t, cursor, vis2) == resolve_from(p, base, t, cursor, vis),
    decreases p.len() - vis.len(), 2int, t.len() - cursor,
{
    if 0 <= cursor <= t.len() {
        match find_open(t, cursor) {
            None => {},
            Some(s) => {
                lemma_find_open_bounds(t, cursor);
                lemma_find_char_bounds(t, '}', s + 2);
                match find_char(t, '}', s + 2) {
                    None => {},
                    Some(e) => {
                        let name = t.subrange(s + 2, e);
                        if name.len() > 0 {
                            lemma_lookup_shrink(p, base, name, t, vis, vis2);
                            lemma_from_shrink(p, base, t, e + 1, vis, vis2);
                        }
                    },
                }
            },
        }
    }
}

/// What `scope` holds for the table `p` over `base`: each name of the table
/// with the value its resolution gives, every other name as `base` has it.
pub open spec fn resolved_scope(p: Seq<(Seq<char>, Seq<char>)>, base: Map<Seq<char>, Seq<char>>, scope: Map<Seq<char>, Seq<char>>) -> bool {
    &&& forall|n: Seq<char>| #[trigger] pairs_map(p).contains_key(n) ==> scope.contains_key(n)
        && resolve_key(p, base, n, seq![]) == Ok::<Seq<char>, InterpFault>(scope[n])
    &&& forall|n: Seq<char>| !pairs_map(p).contains_key(n) ==> (#[trigger] scope.contains_key(n) <==> base.contains_key(n))
    &&& forall|n: Seq<char>| !pairs_map(p).contains_key(n) && base.contains_key(n) ==> #[trigger] scope[n] == base[n]
}

proof fn lemma_from_is_interpolation(
    p: Seq<(Seq<char>, Seq<char>)>,
    base: Map<Seq<char>, Seq<char>>,
    t: Seq<char>,
    cursor: int,
    vis: Seq<Seq<char>>,
    scope: Map<Seq<char>, Seq<char>>,
)
    requires
        resolve_from(p, base, t, cursor, vis) is Ok,
        resolved_scope(p, base, scope),
    ensures
        interpolate_from(t, cursor, scope) == resolve_from(p, base, t, cursor, vis),
    decreases t.len() - cursor,
{
    if 0 <= cursor <= t.len() {
        match find_open(t, cursor) {
            None => {},
            Some(s) => {
                lemma_find_open_bounds(t, cursor);
                lemma_find_char_bounds(t, '}', s + 2);
                match find_char(t, '}', s + 2) {
                    None => {},
                    Some(e) => {
                        let name = t.subrange(s + 2, e);
                        if name.len() > 0 {
                            assert(resolve_from(p, base, t, cursor, vis) == match lookup_name(p, base, name, t, vis) {
                                Err(f) => Err(f),
                                Ok(v) => prepend(t.subrange(cursor, s) + v, resolve_from(p, base, t, e + 1, vis)),
                            });
                            assert(lookup_name(p, base, name, t, vis) is Ok);
                            if pairs_map(p).contains_key(name) {
                                lemma_key_shrink(p, base, name, vis, seq![]);
                                assert(scope.contains_key(name));
                            } else {
                                assert(base.contains_key(name));
                                assert(scope.contains_key(name));
                            }
                            lemma_from_is_interpolation(p, base, t, e + 1, vis, scope);
                        }
                    },
                }
            },
        }
    }
}

/// A resolved table is a fixed point of interpolation: each value is its
/// template interpolated over the base environment with the resolved table
/// on top (the table's names shadow the base).
pub proof fn resolved_table_is_a_fixed_point(p: Seq<(Seq<char>, Seq<char>)>, base: Map<Seq<char>, Seq<char>>)
    requires
        unique_keys(p),
        resolve_entries(p, base) is Ok,
    ensures
        ({
            let r = resolve_entries(p, base)->Ok_0;
            &&& r.len() == p.len()
            &&& forall|i: int| 0 <= i < p.len() ==> #[trigger] r[i].0 == p[i].0
                && interpolate(p[i].1, base.union_prefer_right(pairs_map(r))) == Ok::<Seq<char>, InterpFault>(r[i].1)
        }),
{
    let r = resolve_entries(p, base)->Ok_0;
    resolved_table_keeps_its_names(p, base);
    lemma_pairs_map(p);
    assert(unique_keys(r)) by {
        assert forall|i: int, j: int| 0 <= i < r.len() && 0 <= j < r.len() && i != j implies r[i].0 != r[j].0 by {
            assert(r[i].0 == p[i].0 && r[j].0 == p[j].0);
        }
    }
    lemma_pairs_map(r);
    let rm = pairs_map(r);
    let scope = base.union_prefer_right(rm);
    assert forall|n: Seq<char>| #[trigger] pairs_map(p).contains_key(n) implies scope.contains_key(n)
        && resolve_key(p, base, n, seq![]) == Ok::<Seq<char>, InterpFault>(scope[n]) by {
        assert(has_key(p, n));
        let i = choose|i: int| 0 <= i < p.len() && p[i].0 == n;
        assert(r[i].0 == n);
        assert(has_key(r, n));
        assert(rm[r[i].0] == r[i].1);
    }
    assert forall|n: Seq<char>| !pairs_map(p).contains_key(n) implies (#[trigger] scope.contains_key(n) <==> base.contains_key(n)) by {
        if has_key(r, n) {
            let i = choose|i: int| 0 <= i < r.len() && r[i].0 == n;
            assert(p[i].0 == n);
            assert(has_key(p, n));
        }
    }
    assert forall|n: Seq<char>| !pairs_map(p).contains_key(n) && base.contains_key(n) implies #[trigger] scope[n] == base[n] by {
        if has_key(r, n) {
            let i = choose|i: int| 0 <= i < r.len() && r[i].0 == n;
            assert(p[i].0 == n);
            assert(has_key(p, n));
        }
    }
    assert(resolved_scope(p, base, scope));
    assert forall|i: int| 0 <= i < p.len() implies #[trigger] r[i].0 == p[i].0
        && interpolate(p[i].1, scope) == Ok::<Seq<char>, InterpFault>(r[i].1) by {
        let k = p[i].0;
        assert(has_key(p, k));
        assert(pairs_map(p)[k] == p[i].1);
        assert(!seq![].contains(k));
        assert(seq![].push(k).len() == 1);
        assert(resolve_key(p, base, k, seq![]) == resolve_from(p, base, p[i].1, 0, seq![].push(k)));
        lemma_from_is_interpolation(p, base, p[i].1, 0, seq![].push(k), scope);
    }
}


proof fn lemma_key_same_table(
    p: Seq<(Seq<char>, Seq<char>)>,
    q: Seq<(Seq<char>, Seq<char>)>,
    base: Map<Seq<char>, Seq<char>>,
    key: Seq<char>,
    vis: Seq<Seq<char>>,
)
    requires
        pairs_map(p) == pairs_map(q),
        p.len() == q.len(),
    ensures
        resolve_key(p, base, key, vis) == resolve_key(q, base, key, vis),
    decreases p.len() - vis.len(), 0int, 0int,
{
    if !vis.contains(key) && vis.len() < p.len() && pairs_map(p).contains_key(key) {
        lemma_from_same_table(p, q, base, pairs_map(p)[key], 0, vis.push(key));
    }
}

proof fn lemma_lookup_same_table(
    p: Seq<(Seq<char>, Seq<char>)>,
    q: Seq<(Seq<char>, Seq<char>)>,
    base: Map<Seq<char>, Seq<char>>,
    name: Seq<char>,
    t: Seq<char>,
    vis: Seq<Seq<char>>,
)
    requires
        pairs_map(p) == pairs_map(q),
        p.len() == q.len(),
    ensures
        lookup_name(p, base, name, t, vis) == lookup_name(q, base, name, t, vis),
    decreases p.len() - vis.len(), 1int, 0int,
{
    if pairs_map(p).contains_key(name) {
        lemma_key_same_table(p, q, base, name, vis);
    }
}

proof fn lemma_from_same_table(
    p: Seq<(Seq<char>, Seq<char>)>,
    q: Seq<(Seq<char>, Seq<char>)>,
    base: Map<Seq<char>, Seq<char>>,
    t: Seq<char>,
    cursor: int,
    vis: Seq<Seq<char>>,
)
    requires
        pairs_map(p) == pairs_map(q),
        p.len() == q.len(),
    ensures
        resolve_from(p, base, t, cursor, vis) == resolve_from(q, base, t, cursor, vis),
    decreases p.len() - vis.len(), 2int, t.len() - cursor,
{
    if 0 <= cursor <= t.len() {
        match find_open(t, cursor) {
            None => {},
            Some(s) => {
                lemma_find_open_bounds(t, cursor);
                lemma_find_char_bounds(t, '}', s + 2);
                match find_char(t, '}', s + 2) {
                    None => {},
                    Some(e) => {
                        let name = t.subrange(s + 2, e);
                        if name.len() > 0 {
                            lemma_lookup_same_table(p, q, base, name, t, vis);
                            lemma_from_same_table(p, q, base, t, e + 1, vis);
                        }
                    },
                }
            },
        }
    }
}

proof fn lemma_entries_ok(p: Seq<(Seq<char>, Seq<char>)>, base: Map<Seq<char>, Seq<char>>, from: int)
    requires
        0 <= from <= p.len(),
    ensures
        resolve_entries_from(p, base, from) is Ok <==> forall|i: int| from <= i < p.len() ==> (#[trigger] resolve_key(p, base, p[i].0, seq![])) is Ok,
    decreases p.len() - from,
{
    if from < p.len() {
        lemma_entries_ok(p, base, from + 1);
    }
}

/// A table resolves exactly when each of its names resolves on its own.
pub proof fn table_resolves_iff_each_name_does(p: Seq<(Seq<char>, Seq<char>)>, base: Map<Seq<char>, Seq<char>>)
    ensures
        resolve_entries(p, base) is Ok <==> forall|i: int| 0 <= i < p.len() ==> (#[trigger] resolve_key(p, base, p[i].0, seq![])) is Ok,
{
    lemma_entries_ok(p, base, 0);
}

/// The order of a table's entries does not matter: two tables with the same
/// entries in another order both resolve or both fail, and when they
/// resolve they give the same names the same values.
pub proof fn resolution_ignores_entry_order(
    p: Seq<(Seq<char>, Seq<char>)>,
    q: Seq<(Seq<char>, Seq<char>)>,
    base: Map<Seq<char>, Seq<char>>,
)
    requires
        unique_keys(p),
        unique_keys(q),
        p.len() == q.len(),
        pairs_map(p) == pairs_map(q),
    ensures
        resolve_entries(p, base) is Ok <==> resolve_entries(q, base) is Ok,
        resolve_entries(p, base) is Ok ==> pairs_map(resolve_entries(p, base)->Ok_0) == pairs_map(resolve_entries(q, base)->Ok_0),
{
    lemma_pairs_map(p);
    lemma_pairs_map(q);
    lemma_entries_ok(p, base, 0);
    lemma_entries_ok(q, base, 0);
    assert forall|k: Seq<char>, vis: Seq<Seq<char>>| resolve_key(p, base, k, vis) == #[trigger] resolve_key(q, base, k, vis) by {
        lemma_key_same_table(p, q, base, k, vis);
    }
    assert((forall|i: int| 0 <= i < p.len() ==> (#[trigger] resolve_key(p, base, p[i].0, seq![])) is Ok)
        <==> (forall|i: int| 0 <= i < q.len() ==> (#[trigger] resolve_key(q, base, q[i].0, seq![])) is Ok)) by {
        if forall|i: int| 0 <= i < p.len() ==> (#[trigger] resolve_key(p, base, p[i].0, seq![])) is Ok {
            assert forall|i: int| 0 <= i < q.len() implies (#[trigger] resolve_key(q, base, q[i].0, seq![])) is Ok by {
                assert(has_key(q, q[i].0));
                assert(pairs_map(p).contains_key(q[i].0));
                assert(has_key(p, q[i].0));
                let j = choose|j: int| 0 <= j < p.len() && p[j].0 == q[i].0;
                assert(resolve_key(p, base, p[j].0, seq![]) is Ok);
            }
        }
        if forall|i: int| 0 <= i < q.len() ==> (#[trigger] resolve_key(q, base, q[i].0, seq![])) is Ok {
            assert forall|i: int| 0 <= i < p.len() implies (#[trigger] resolve_key(p, base, p[i].0, seq![])) is Ok by {
                assert(has_key(p, p[i].0));
                assert(pairs_map(q).contains_key(p[i].0));
                assert(has_key(q, p[i].0));
                let j = choose|j: int| 0 <= j < q.len() && q[j].0 == p[i].0;
                assert(resolve_key(q, base, q[j].0, seq![]) is Ok);
            }
        }
    }
    if resolve_entries(p, base) is Ok {
        let rp = resolve_entries(p, base)->Ok_0;
        let rq = resolve_entries(q, base)->Ok_0;
        resolved_table_keeps_its_names(p, base);
        resolved_table_keeps_its_names(q, base);
        assert(unique_keys(rp)) by {
            assert forall|i: int, j: int| 0 <= i < rp.len() && 0 <= j < rp.len() && i != j implies rp[i].0 != rp[j].0 by {
                assert(rp[i].0 == p[i].0 && rp[j].0 == p[j].0);
            }
        }
        assert(unique_keys(rq)) by {
            assert forall|i: int, j: int| 0 <= i < rq.len() && 0 <= j < rq.len() && i != j implies rq[i].0 != rq[j].0 by {
                assert(rq[i].0 == q[i].0 && rq[j].0 == q[j].0);
            }
        }
        lemma_pairs_map(rp);
        lemma_pairs_map(rq);
        assert forall|k: Seq<char>| #[trigger] pairs_map(rp).contains_key(k) <==> pairs_map(rq).contains_key(k) by {
            if has_key(rp, k) {
                let i = choose|i: int| 0 <= i < rp.len() && rp[i].0 == k;
                assert(p[i].0 == k && has_key(p, k) && pairs_map(q).contains_key(k) && has_key(q, k));
                let j = choose|j: int| 0 <= j < q.len() && q[j].0 == k;
                assert(0 <= j < rq.len());
                assert(rq[j].0 == q[j].0);
                assert(has_key(rq, k));
            }
            if has_key(rq, k) {
                let i = choose|i: int| 0 <= i < rq.len() && rq[i].0 == k;
                assert(q[i].0 == k && has_key(q, k) && pairs_map(p).contains_key(k) && has_key(p, k));
                let j = choose|j: int| 0 <= j < p.len() && p[j].0 == k;
                assert(0 <= j < rp.len());
                assert(rp[j].0 == p[j].0);
                assert(has_key(rp, k));
            }
        }
        assert forall|k: Seq<char>| #[trigger] pairs_map(rp).contains_key(k) implies pairs_map(rp)[k] == pairs_map(rq)[k] by {
            let i = choose|i: int| 0 <= i < rp.len() && rp[i].0 == k;
            assert(pairs_map(rq).contains_key(k));
            let j = choose|j: int| 0 <= j < rq.len() && rq[j].0 == k;
            assert(rp[i].0 == p[i].0 && rq[j].0 == q[j].0);
            assert(pairs_map(rp)[rp[i].0] == rp[i].1);
            assert(pairs_map(rq)[rq[j].0] == rq[j].1);
            assert(resolve_key(p, base, k, seq![]) == resolve_key(q, base, k, seq![]));
        }
        assert(pairs_map(rp) =~= pairs_map(rq));
    }
}


/// The names a left-to-right scan of `t` from `cursor` refers to, as far as
/// its `${...}` are well formed.
pub open spec fn refs_from(t: Seq<char>, cursor: int) -> Seq<Seq<char>>
    decreases t.len() - cursor,
{
    if cursor < 0 || cursor > t.len() {
        seq![]
    } else {
        match find_open(t, cursor) {
            None => seq![],
            Some(s) => match find_char(t, '}', s + 2) {
                None => seq![],
                Some(e) => {
                    proof {
                        lemma_find_open_bounds(t, cursor);
                        lemma_find_char_bounds(t, '}', s + 2);
                    }
                    let name = t.subrange(s + 2, e);
                    if name.len() == 0 {
                        seq![]
                    } else {
                        seq![name] + refs_from(t, e + 1)
                    }
                },
            },
        }
    }
}

/// Whether every `${` of `t` from `cursor` on is closed and names something.
pub open spec fn well_formed_from(t: Seq<char>, cursor: int) -> bool
    decreases t.len() - cursor,
{
    if cursor < 0 || cursor > t.len() {
        true
    } else {
        match find_open(t, cursor) {
            None => true,
            Some(s) => match find_char(t, '}', s + 2) {
                None => false,
                Some(e) => {
                    proof {
                        lemma_find_open_bounds(t, cursor);
                        lemma_find_char_bounds(t, '}', s + 2);
                    }
                    t.subrange(s + 2, e).len() > 0 && well_formed_from(t, e + 1)
                },
            },
        }
    }
}

/// Whether the value of `a` in the table refers to `b`.
pub open spec fn refers(p: Seq<(Seq<char>, Seq<char>)>, a: Seq<char>, b: Seq<char>) -> bool {
    refs_from(pairs_map(p)[a], 0).contains(b)
}

/// Names of the table, each referring to the next.
pub open spec fn ref_chain(p: Seq<(Seq<char>, Seq<char>)>, path: Seq<Seq<char>>) -> bool {
    &&& forall|j: int| 0 <= j < path.len() ==> pairs_map(p).contains_key(#[trigger] path[j])
    &&& forall|j: int| 0 <= j < path.len() - 1 ==> #[trigger] refers(p, path[j], path[j + 1])
}

/// What makes a table fail to resolve: a value whose `${...}` is unclosed or
/// empty, a value that refers to a name in neither the table nor `base`, or
/// names of the table referring to each other in a cycle.
pub open spec fn table_fault(p: Seq<(Seq<char>, Seq<char>)>, base: Map<Seq<char>, Seq<char>>) -> bool {
    ||| exists|k: Seq<char>| #[trigger] pairs_map(p).contains_key(k) && !well_formed_from(pairs_map(p)[k], 0)
    ||| exists|k: Seq<char>, n: Seq<char>| #[trigger] pairs_map(p).contains_key(k) && #[trigger] refers(p, k, n)
        && !pairs_map(p).contains_key(n) && !base.contains_key(n)
    ||| exists|path: Seq<Seq<char>>| path.len() >= 2 && path[0] == path.last() && #[trigger] ref_chain(p, path)
}

proof fn lemma_err_from(
    p: Seq<(Seq<char>, Seq<char>)>,
    base: Map<Seq<char>, Seq<char>>,
    t: Seq<char>,
    cursor: int,
    vis: Seq<Seq<char>>,
)
    requires
        unique_keys(p),
        vis.len() > 0,
        vis.no_duplicates(),
        ref_chain(p, vis),
        t == pairs_map(p)[vis.last()],
        forall|n: Seq<char>| refs_from(t, cursor).contains(n) ==> refs_from(t, 0).contains(n),
        well_formed_from(t, 0) ==> well_formed_from(t, cursor),
        resolve_from(p, base, t, cursor, vis) is Err,
    ensures
        table_fault(p, base),
    decreases p.len() - vis.len(), 2int, t.len() - cursor,
{
    let k = vis.last();
    assert(pairs_map(p).contains_key(k));
    if 0 <= cursor <= t.len() {
        match find_open(t, cursor) {
            None => {},
            Some(s) => {
                lemma_find_open_bounds(t, cursor);
                lemma_find_char_bounds(t, '}', s + 2);
                match find_char(t, '}', s + 2) {
                    None => {
                        assert(!well_formed_from(pairs_map(p)[k], 0));
                    },
                    Some(e) => {
                        let name = t.subrange(s + 2, e);
                        if name.len() == 0 {
                            assert(!well_formed_from(pairs_map(p)[k], 0));
                        } else {
                            assert(refs_from(t, cursor) == seq![name] + refs_from(t, e + 1));
                            assert(refs_from(t, cursor)[0] == name);
                            assert(refers(p, k, name)) by {
                                assert(refs_from(t, cursor).contains(name));
                            }
                            let later = refs_from(t, e + 1);
                            let here = refs_from(t, cursor);
                            assert forall|n: Seq<char>| later.contains(n) implies refs_from(t, 0).contains(n) by {
                                let j = choose|j: int| 0 <= j < later.len() && later[j] == n;
                                assert(here[j + 1] == n);
                                assert(here.contains(n));
                            }
                            match lookup_name(p, base, name, t, vis) {
                                Err(_) => {
                                    lemma_err_lookup(p, base, name, t, vis);
                                },
                                Ok(_) => {
                                    lemma_err_from(p, base, t, e + 1, vis);
                                },
                            }
                        }
                    },
                }
            },
        }
    }
}

proof fn lemma_err_lookup(
    p: Seq<(Seq<char>, Seq<char>)>,
    base: Map<Seq<char>, Seq<char>>,
    name: Seq<char>,
    t: Seq<char>,
    vis: Seq<Seq<char>>,
)
    requires
        unique_keys(p),
        vis.len() > 0,
        vis.no_duplicates(),
        ref_chain(p, vis),
        refers(p, vis.last(), name),
        lookup_name(p, base, name, t, vis) is Err,
    ensures
        table_fault(p, base),
    decreases p.len() - vis.len(), 1int, 0int,
{
    let k = vis.last();
    if pairs_map(p).contains_key(name) {
        let v2 = vis.push(name);
        assert(ref_chain(p, v2)) by {
            assert forall|j: int| 0 <= j < v2.len() implies pairs_map(p).contains_key(#[trigger] v2[j]) by {
                if j < vis.len() {
                    assert(v2[j] == vis[j]);
                }
            }
            assert forall|j: int| 0 <= j < v2.len() - 1 implies #[trigger] refers(p, v2[j], v2[j + 1]) by {
                if j < vis.len() - 1 {
                    assert(v2[j] == vis[j] && v2[j + 1] == vis[j + 1]);
                    assert(refers(p, vis[j], vis[j + 1]));
                } else {
                    assert(v2[j] == k && v2[j + 1] == name);
                }
            }
        }
        lemma_err_key(p, base, name, vis);
    } else {
        assert(!base.contains_key(name));
        assert(pairs_map(p).contains_key(k));
        assert(refers(p, k, name));
    }
}

proof fn lemma_err_key(
    p: Seq<(Seq<char>, Seq<char>)>,
    base: Map<Seq<char>, Seq<char>>,
    key: Seq<char>,
    vis: Seq<Seq<char>>,
)
    requires
        unique_keys(p),
        vis.no_duplicates(),
        ref_chain(p, vis.push(key)),
        resolve_key(p, base, key, vis) is Err,
    ensures
        table_fault(p, base),
    decreases p.len() - vis.len(), 0int, 0int,
{
    let v2 = vis.push(key);
    lemma_pairs_map(p);
    assert(v2[vis.len() as int] == key);
    assert(pairs_map(p).contains_key(key));
    assert forall|j: int| 0 <= j < vis.len() implies pairs_map(p).contains_key(#[trigger] vis[j]) by {
        assert(v2[j] == vis[j]);
    }
    if vis.contains(key) {
        let q = choose|q: int| 0 <= q < vis.len() && vis[q] == key;
        let path = v2.subrange(q, v2.len() as int);
        assert(path[0] == key && path.last() == key);
        assert(ref_chain(p, path)) by {
            assert forall|j: int| 0 <= j < path.len() implies pairs_map(p).contains_key(#[trigger] path[j]) by {
                assert(path[j] == v2[q + j]);
            }
            assert forall|j: int| 0 <= j < path.len() - 1 implies #[trigger] refers(p, path[j], path[j + 1]) by {
                assert(path[j] == v2[q + j] && path[j + 1] == v2[q + j + 1]);
                assert(refers(p, v2[q + j], v2[q + j + 1]));
            }
        }
    } else {
        assert forall|i: int| 0 <= i < vis.len() implies has_key(p, #[trigger] vis[i]) by {
            assert(pairs_map(p).contains_key(vis[i]));
        }
        lemma_visiting_shorter(p, vis, key);
        assert(v2.no_duplicates()) by {
            assert forall|i: int, j: int| 0 <= i < v2.len() && 0 <= j < v2.len() && i != j implies v2[i] != v2[j] by {
                if i == vis.len() {
                    assert(vis[j] == v2[j]);
                } else if j == vis.len() {
                    assert(vis[i] == v2[i]);
                } else {
                    assert(vis[i] == v2[i] && vis[j] == v2[j]);
                }
            }
        }
        assert(v2.last() == key);
        lemma_err_from(p, base, pairs_map(p)[key], 0, v2);
    }
}

proof fn lemma_ok_from(
    p: Seq<(Seq<char>, Seq<char>)>,
    base: Map<Seq<char>, Seq<char>>,
    t: Seq<char>,
    cursor: int,
    vis: Seq<Seq<char>>,
)
    requires
        resolve_from(p, base, t, cursor, vis) is Ok,
    ensures
        well_formed_from(t, cursor),
        forall|n: Seq<char>| #[trigger] refs_from(t, cursor).contains(n) ==> (pairs_map(p).contains_key(n)
            ==> resolve_key(p, base, n, vis) is Ok) && (!pairs_map(p).contains_key(n) ==> base.contains_key(n)),
    decreases t.len() - cursor,
{
    if 0 <= cursor <= t.len() {
        match find_open(t, cursor) {
            None => {},
            Some(s) => {
                lemma_find_open_bounds(t, cursor);
                lemma_find_char_bounds(t, '}', s + 2);
                match find_char(t, '}', s + 2) {
                    None => {},
                    Some(e) => {
                        let name = t.subrange(s + 2, e);
                        if name.len() > 0 {
                            assert(lookup_name(p, base, name, t, vis) is Ok);
                            lemma_ok_from(p, base, t, e + 1, vis);
                            assert(refs_from(t, cursor) == seq![name] + refs_from(t, e + 1));
                            assert forall|n: Seq<char>| #[trigger] refs_from(t, cursor).contains(n) implies (pairs_map(p).contains_key(n)
                                ==> resolve_key(p, base, n, vis) is Ok) && (!pairs_map(p).contains_key(n) ==> base.contains_key(n)) by {
                                let here = refs_from(t, cursor);
                                let later = refs_from(t, e + 1);
                                let j = choose|j: int| 0 <= j < here.len() && here[j] == n;
                                if j > 0 {
                                    assert(later[j - 1] == n);
                                    assert(later.contains(n));
                                }
                            }
                        }
                    },
                }
            },
        }
    }
}

proof fn lemma_cycle_blocks(
    p: Seq<(Seq<char>, Seq<char>)>,
    base: Map<Seq<char>, Seq<char>>,
    path: Seq<Seq<char>>,
    j: int,
)
    requires
        path.len() >= 2,
        path[0] == path.last(),
        ref_chain(p, path),
        0 <= j < path.len(),
    ensures
        resolve_key(p, base, path[j], path.take(j)) is Err,
    decreases path.len() - j,
{
    if j == path.len() - 1 {
        assert(path.take(j)[0] == path[0]);
        assert(path.take(j).contains(path[j]));
    } else {
        lemma_cycle_blocks(p, base, path, j + 1);
        if resolve_key(p, base, path[j], path.take(j)) is Ok {
            let k = path[j];
            assert(path.take(j).push(k) =~= path.take(j + 1));
            let t = pairs_map(p)[k];
            lemma_ok_from(p, base, t, 0, path.take(j + 1));
            assert(refers(p, path[j], path[j + 1]));
            assert(refs_from(t, 0).contains(path[j + 1]));
            assert(pairs_map(p).contains_key(path[j + 1]));
        }
    }
}

/// A table fails to resolve exactly when one of its values has an unclosed
/// or empty `${...}`, refers to a name in neither the table nor `base`, or
/// its names refer to each other in a cycle.
pub proof fn table_fails_exactly_on_a_fault(p: Seq<(Seq<char>, Seq<char>)>, base: Map<Seq<char>, Seq<char>>)
    requires
        unique_keys(p),
    ensures
        resolve_entries(p, base) is Err <==> table_fault(p, base),
{
    lemma_pairs_map(p);
    lemma_entries_ok(p, base, 0);
    if resolve_entries(p, base) is Err {
        let i = choose|i: int| 0 <= i < p.len() && !((#[trigger] resolve_key(p, base, p[i].0, seq![])) is Ok);
        let key = p[i].0;
        let v2 = seq![].push(key);
        assert(v2[0] == key);
        assert(has_key(p, key));
        assert(ref_chain(p, v2));
        lemma_err_key(p, base, key, seq![]);
    } else {
        assert forall|k: Seq<char>| #[trigger] pairs_map(p).contains_key(k) implies resolve_key(p, base, k, seq![]) is Ok by {
            assert(has_key(p, k));
            let i = choose|i: int| 0 <= i < p.len() && p[i].0 == k;
            assert(resolve_key(p, base, p[i].0, seq![]) is Ok);
        }
        if table_fault(p, base) {
            if exists|k: Seq<char>| #[trigger] pairs_map(p).contains_key(k) && !well_formed_from(pairs_map(p)[k], 0) {
                let k = choose|k: Seq<char>| #[trigger] pairs_map(p).contains_key(k) && !well_formed_from(pairs_map(p)[k], 0);
                assert(resolve_key(p, base, k, seq![]) is Ok);
                lemma_ok_from(p, base, pairs_map(p)[k], 0, seq![].push(k));
            } else if exists|k: Seq<char>, n: Seq<char>| #[trigger] pairs_map(p).contains_key(k) && #[trigger] refers(p, k, n)
                && !pairs_map(p).contains_key(n) && !base.contains_key(n) {
                let (k, n) = choose|k: Seq<char>, n: Seq<char>| #[trigger] pairs_map(p).contains_key(k) && #[trigger] refers(p, k, n)
                    && !pairs_map(p).contains_key(n) && !base.contains_key(n);
                assert(resolve_key(p, base, k, seq![]) is Ok);
                lemma_ok_from(p, base, pairs_map(p)[k], 0, seq![].push(k));
                assert(refs_from(pairs_map(p)[k], 0).contains(n));
            } else {
                let path = choose|path: Seq<Seq<char>>| path.len() >= 2 && path[0] == path.last() && #[trigger] ref_chain(p, path);
                assert(pairs_map(p).contains_key(path[0]));
                assert(path.take(0) =~= Seq::<Seq<char>>::empty());
                lemma_cycle_blocks(p, base, path, 0);
            }
        }
    }
}

} // verus!

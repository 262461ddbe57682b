use vstd::prelude::*;
use crate::error::InputError;
use crate::read::{is_blank, is_identifier, is_identifier_text};
use crate::text::{chars_of, push_char, string_of};

verus! {

/// The model of a store's entries: names and values, in insertion order.
pub open spec fn entry_views(v: Seq<(String, String)>) -> Seq<(Seq<char>, Seq<char>)> {
    v.map_values(|e: (String, String)| (e.0@, e.1@))
}

pub open spec fn has_key(m: Seq<(Seq<char>, Seq<char>)>, k: Seq<char>) -> bool {
    exists|i: int| 0 <= i < m.len() && #[trigger] m[i].0 == k
}

pub open spec fn key_index(m: Seq<(Seq<char>, Seq<char>)>, k: Seq<char>) -> int {
    choose|i: int| 0 <= i < m.len() && #[trigger] m[i].0 == k
}

pub open spec fn keys_unique(m: Seq<(Seq<char>, Seq<char>)>) -> bool {
    forall|i: int, j: int| 0 <= i < m.len() && 0 <= j < m.len() && #[trigger] m[i].0 == #[trigger] m[j].0 ==> i == j
}

/// The map from names to values that a list of entries stands for.
pub open spec fn entries_map(m: Seq<(Seq<char>, Seq<char>)>) -> Map<Seq<char>, Seq<char>> {
    Map::new(|k: Seq<char>| has_key(m, k), |k: Seq<char>| m[key_index(m, k)].1)
}

/// A mapping from variable names to string values; setting a name again replaces its value.
pub struct Environment {
    entries: Vec<(String, String)>,
}

impl View for Environment {
    type V = Map<Seq<char>, Seq<char>>;

    closed spec fn view(&self) -> Map<Seq<char>, Seq<char>> {
        entries_map(entry_views(self.entries@))
    }
}

impl Environment {
    pub closed spec fn wf(&self) -> bool {
        keys_unique(entry_views(self.entries@))
    }

    pub fn new() -> (r: Environment)
        ensures
            r.wf(),
            r@ == Map::<Seq<char>, Seq<char>>::empty(),
    {
        let r = Environment { entries: Vec::new() };
        assert(r@ =~= Map::<Seq<char>, Seq<char>>::empty());
        r
    }

    /// The position of `name` among the entries, if it is set.
    fn position(&self, name: &str) -> (r: Option<usize>)
        requires
            self.wf(),
        ensures
            match r {
                Some(i) => i < self.entries@.len() && self.entries@[i as int].0@ == name@,
                None => !has_key(entry_views(self.entries@), name@),
            },
    {
        let ghost m = entry_views(self.entries@);
        let key = name.to_owned();
        let mut i: usize = 0;
        while i < self.entries.len()
            invariant
                i <= self.entries@.len(),
                m == entry_views(self.entries@),
                key@ == name@,
                forall|j: int| 0 <= j < i ==> #[trigger] m[j].0 != name@,
            decreases self.entries@.len() - i,
        {
            if self.entries[i].0 == key {
                return Some(i);
            }
            assert(m[i as int].0 == self.entries@[i as int].0@);
            i = i + 1;
        }
        None
    }

    /// The value stored under `name`.
    pub fn get(&self, name: &str) -> (r: Option<String>)
        requires
            self.wf(),
        ensures
            match r {
                Some(v) => self@.contains_key(name@) && v@ == self@[name@],
                None => !self@.contains_key(name@),
            },
    {
        match self.position(name) {
            Some(i) => {
                let ghost m = entry_views(self.entries@);
                assert(m[i as int].0 == name@);
                assert(key_index(m, name@) == i as int);
                Some(self.entries[i].1.clone())
            },
            None => None,
        }
    }

    /// Stores `value` under `name`, replacing any earlier value.
    pub fn set(&mut self, name: &str, value: &str)
        requires
            old(self).wf(),
        ensures
            final(self).wf(),
            final(self)@ == old(self)@.insert(name@, value@),
    {
        let ghost m0 = entry_views(self.entries@);
        match self.position(name) {
            Some(i) => {
                self.entries.set(i, (name.to_owned(), value.to_owned()));
                let ghost m = entry_views(self.entries@);
                assert(m =~= m0.update(i as int, (name@, value@)));
                assert(m0[i as int].0 == name@);
                assert forall|j: int| 0 <= j < m.len() implies #[trigger] m[j].0 == m0[j].0 by {}
                assert(keys_unique(m));
                assert forall|k: Seq<char>| has_key(m, k) implies m[key_index(m, k)].1 == old(
                    self,
                )@.insert(name@, value@)[k] by {
                    let j = key_index(m, k);
                    if k != name@ {
                        assert(m0[j].0 == k);
                        assert(key_index(m0, k) == j);
                    }
                }
                assert forall|k: Seq<char>| has_key(m, k) <==> has_key(m0, k) || k == name@ by {
                    if has_key(m0, k) {
                        let j = key_index(m0, k);
                        if j == i as int {
                            assert(m[j].0 == k);
                        } else {
                            assert(m[j].0 == k);
                        }
                    }
                    if k == name@ {
                        assert(m[i as int].0 == k);
                    }
                    if has_key(m, k) {
                        let j = key_index(m, k);
                        if j != i as int {
                            assert(m0[j].0 == k);
                        }
                    }
                }
                assert(self@ =~= old(self)@.insert(name@, value@));
            },
            None => {
                self.entries.push((name.to_owned(), value.to_owned()));
                let ghost m = entry_views(self.entries@);
                assert(m =~= m0.push((name@, value@)));
                assert forall|k: Seq<char>| has_key(m, k) implies m[key_index(m, k)].1 == old(
                    self,
                )@.insert(name@, value@)[k] by {
                    let j = key_index(m, k);
                    if k != name@ {
                        assert(m0[j].0 == k);
                        assert(key_index(m0, k) == j);
                    }
                }
                assert forall|k: Seq<char>| has_key(m, k) <==> has_key(m0, k) || k == name@ by {
                    if has_key(m0, k) {
                        let j = key_index(m0, k);
                        assert(m[j].0 == k);
                    }
                    if k == name@ {
                        assert(m[m0.len() as int].0 == k);
                    }
                    if has_key(m, k) {
                        let j = key_index(m, k);
                        if j != m0.len() {
                            assert(m0[j].0 == k);
                        }
                    }
                }
                assert(self@ =~= old(self)@.insert(name@, value@));
            },
        }
    }
}


/// How many characters from `from` on come before the next `$` (or the end).
pub open spec fn gap(s: Seq<char>, from: int) -> nat
    decreases s.len() - from,
{
    if from < 0 || from >= s.len() || s[from] == '$' {
        0
    } else {
        1 + gap(s, from + 1)
    }
}

/// Substitution of masks from position `i` on. A `$` opens a mask when a later `$` closes it and
/// the name between them is set; the mask is then replaced by the value, which is not scanned
/// again. Any other `$`, and every other character, stays as it is.
pub open spec fn substituted_from(s: Seq<char>, env: Map<Seq<char>, Seq<char>>, i: int) -> Seq<char>
    decreases s.len() - i,
{
    if i < 0 || i >= s.len() {
        Seq::empty()
    } else {
        let close = i + 1 + gap(s, i + 1);
        let name = s.subrange(i + 1, close);
        if s[i] == '$' && close < s.len() && env.contains_key(name) {
            env[name] + substituted_from(s, env, close + 1)
        } else {
            seq![s[i]] + substituted_from(s, env, i + 1)
        }
    }
}

/// `s` with every `$NAME$` whose name is set replaced by its value.
pub open spec fn substituted(s: Seq<char>, env: Map<Seq<char>, Seq<char>>) -> Seq<char> {
    substituted_from(s, env, 0)
}

proof fn lemma_gap_extends(s: Seq<char>, from: int)
    requires
        0 <= from < s.len(),
        s[from] != '$',
    ensures
        gap(s, from) == 1 + gap(s, from + 1),
{
}

/// When no `$` lies in `s[from..to]` and one stands at `to`, the gap from `from` is `to - from`.
proof fn lemma_gap_to(s: Seq<char>, from: int, to: int)
    requires
        0 <= from <= to < s.len(),
        s[to] == '$',
        forall|k: int| from <= k < to ==> s[k] != '$',
    ensures
        gap(s, from) == to - from,
    decreases to - from,
{
    if from < to {
        lemma_gap_to(s, from + 1, to);
    }
}

/// Mask substitution, a mask being `$NAME$`. A name that is not set leaves its text unchanged.
pub fn replace_masks(text: &str, env: &Environment) -> (r: String)
    requires
        env.wf(),
    ensures
        r@ == substituted(text@, env@),
{
    let chars = chars_of(text);
    let ghost s = chars@;
    let n = chars.len();
    let mut out = String::new();
    let mut i: usize = 0;
    while i < n
        invariant
            s == chars@,
            n == s.len(),
            i <= n,
            env.wf(),
            out@ + substituted_from(s, env@, i as int) == substituted(s, env@),
        decreases n - i,
    {
        let c = chars[i];
        let mut replaced = false;
        if c == '$' {
            let mut j: usize = i + 1;
            while j < n && chars[j] != '$'
                invariant
                    s == chars@,
                    n == s.len(),
                    i < j <= n,
                    gap(s, i + 1) == (j - (i + 1)) + gap(s, j as int),
                decreases n - j,
            {
                proof {
                    lemma_gap_extends(s, j as int);
                }
                j = j + 1;
            }
            assert(gap(s, j as int) == 0);
            if j < n {
                let name = string_of(&chars, i + 1, j);
                match env.get(name.as_str()) {
                    Some(value) => {
                        let ghost before = out@;
                        out.append(value.as_str());
                        assert(out@ + substituted_from(s, env@, j + 1) =~= before
                            + substituted_from(s, env@, i as int));
                        i = j + 1;
                        replaced = true;
                    },
                    None => {},
                }
            }
        }
        if !replaced {
            let ghost before = out@;
            push_char(&mut out, c);
            assert(out@ + substituted_from(s, env@, i + 1) =~= before + substituted_from(
                s,
                env@,
                i as int,
            ));
            i = i + 1;
        }
    }
    assert(out@ + substituted_from(s, env@, i as int) =~= out@);
    out
}

/// Masks are replaced by their values verbatim: a value that holds masks of its own is not
/// substituted again.
pub proof fn lemma_mask_not_rescanned(name: Seq<char>, env: Map<Seq<char>, Seq<char>>)
    requires
        env.contains_key(name),
        forall|k: int| 0 <= k < name.len() ==> name[k] != '$',
    ensures
        substituted(seq!['$'] + name + seq!['$'], env) == env[name],
{
    let s = seq!['$'] + name + seq!['$'];
    let close: int = name.len() as int + 1;
    assert forall|k: int| 1 <= k < close implies s[k] != '$' by {
        assert(s[k] == name[k - 1]);
    }
    lemma_gap_to(s, 1, close);
    assert(s.subrange(1, close) =~= name);
    assert(substituted_from(s, env, close + 1) =~= Seq::<char>::empty());
    assert(env[name] + Seq::<char>::empty() =~= env[name]);
}

/// Text without any `$` comes out of substitution unchanged.
pub proof fn lemma_no_mask_unchanged(s: Seq<char>, env: Map<Seq<char>, Seq<char>>, i: int)
    requires
        0 <= i <= s.len(),
        forall|k: int| 0 <= k < s.len() ==> s[k] != '$',
    ensures
        substituted_from(s, env, i) == s.subrange(i, s.len() as int),
    decreases s.len() - i,
{
    if i < s.len() {
        lemma_no_mask_unchanged(s, env, i + 1);
        assert(seq![s[i]] + s.subrange(i + 1, s.len() as int) =~= s.subrange(i, s.len() as int));
    } else {
        assert(s.subrange(i, s.len() as int) =~= Seq::<char>::empty());
    }
}

/// A line with its leading and trailing blanks removed.
pub open spec fn trimmed(s: Seq<char>) -> Seq<char>
    decreases s.len(),
{
    if s.len() > 0 && is_blank(s[0]) {
        trimmed(s.drop_first())
    } else if s.len() > 0 && is_blank(s.last()) {
        trimmed(s.drop_last())
    } else {
        s
    }
}

/// Whether a line is an environment assignment: its trimmed form starts with `$`.
pub open spec fn is_assignment_line(s: Seq<char>) -> bool {
    trimmed(s).len() > 0 && trimmed(s)[0] == '$'
}

/// Index of the first `=` in `t` at or after `from`, or `t.len()`.
pub open spec fn first_eq(t: Seq<char>, from: int) -> int
    decreases t.len() - from,
{
    if from < 0 || from >= t.len() {
        t.len() as int
    } else if t[from] == '=' {
        from
    } else {
        first_eq(t, from + 1)
    }
}

/// `$NAME=value` after trimming, split at the first `=`, with NAME an identifier.
pub open spec fn assignment_parts(s: Seq<char>) -> Option<(Seq<char>, Seq<char>)> {
    let t = trimmed(s);
    let e = first_eq(t, 1);
    if t.len() > 0 && t[0] == '$' && e < t.len() && is_identifier(t.subrange(1, e)) {
        Some((t.subrange(1, e), t.subrange(e + 1, t.len() as int)))
    } else {
        None
    }
}

/// The bounds of the trimmed part of `v`.
pub(crate) fn trim_bounds(v: &Vec<char>) -> (r: (usize, usize))
    ensures
        r.0 <= r.1 <= v@.len(),
        v@.subrange(r.0 as int, r.1 as int) == trimmed(v@),
{
    let mut a: usize = 0;
    let mut b: usize = v.len();
    assert(v@.subrange(0, v@.len() as int) =~= v@);
    while a < b && (v[a] == ' ' || v[a] == '\n' || v[a] == '\t')
        invariant
            a <= b == v@.len(),
            trimmed(v@.subrange(a as int, b as int)) == trimmed(v@),
        decreases b - a,
    {
        assert(v@.subrange(a as int, b as int).drop_first() =~= v@.subrange(a + 1, b as int));
        a = a + 1;
    }
    assert(v@.subrange(0, v@.len() as int) =~= v@);
    while a < b && (v[b - 1] == ' ' || v[b - 1] == '\n' || v[b - 1] == '\t')
        invariant
            a <= b <= v@.len(),
            trimmed(v@.subrange(a as int, b as int)) == trimmed(v@),
            a < b ==> !is_blank(v@[a as int]),
        decreases b - a,
    {
        assert(v@.subrange(a as int, b as int).drop_last() =~= v@.subrange(a as int, b - 1));
        b = b - 1;
    }
    (a, b)
}

/// Parses an assignment line `$NAME=value`.
pub fn parse_assignment(line: &str) -> (r: Result<(String, String), InputError>)
    ensures
        match r {
            Ok((name, value)) => assignment_parts(line@) == Some((name@, value@)),
            Err(InputError::NotAEnvVarAttrib(t)) => assignment_parts(line@) is None && t@
                == trimmed(line@),
            Err(_) => false,
        },
{
    let v = chars_of(line);
    let (a, b) = trim_bounds(&v);
    let ghost t = trimmed(line@);
    if a == b || v[a] != '$' {
        return Err(InputError::NotAEnvVarAttrib(string_of(&v, a, b)));
    }
    assert(t[0] == v@[a as int]);
    let mut e: usize = a + 1;
    while e < b && v[e] != '='
        invariant
            a < e <= b <= v@.len(),
            t == v@.subrange(a as int, b as int),
            first_eq(t, 1) == first_eq(t, e - a),
        decreases b - e,
    {
        assert(t[e - a] == v@[e as int]);
        e = e + 1;
    }
    if e < b {
        assert(t[e - a] == v@[e as int]);
    }
    if e == b {
        return Err(InputError::NotAEnvVarAttrib(string_of(&v, a, b)));
    }
    let name = string_of(&v, a + 1, e);
    assert(name@ =~= t.subrange(1, (e - a) as int));
    if !is_identifier_text(name.as_str()) {
        return Err(InputError::NotAEnvVarAttrib(string_of(&v, a, b)));
    }
    let value = string_of(&v, e + 1, b);
    assert(value@ =~= t.subrange((e - a) + 1, t.len() as int));
    Ok((name, value))
}

} // verus!

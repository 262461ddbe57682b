use vstd::prelude::*;
use crate::error::CommandError;
use crate::read::{ArgToken, token_text};
use crate::text::chars_of;

verus! {

/// The declared type of one argument slot.
#[derive(Debug, Clone, Copy, PartialEq, Eq, Structural)]
pub enum ArgType {
    Str,
    Int,
    Float,
    Bool,
}

/// The model of an evaluated argument. A float is kept as the literal that was accepted.
pub ghost enum ArgValue {
    Str(Seq<char>),
    Int(int),
    Float(Seq<char>),
    Bool(bool),
}

/// An argument after its text was checked and converted against its declared type.
/// A float keeps the accepted literal; converting it to a machine float is left to the host.
#[derive(Debug, Clone)]
pub enum EvaluatedArg {
    Str(String),
    Int(i32),
    Float(String),
    Bool(bool),
}

impl View for EvaluatedArg {
    type V = ArgValue;

    open spec fn view(&self) -> ArgValue {
        match self {
            EvaluatedArg::Str(s) => ArgValue::Str(s@),
            EvaluatedArg::Int(i) => ArgValue::Int(*i as int),
            EvaluatedArg::Float(s) => ArgValue::Float(s@),
            EvaluatedArg::Bool(b) => ArgValue::Bool(*b),
        }
    }
}

pub open spec fn is_digit(c: char) -> bool {
    '0' <= c <= '9'
}

pub open spec fn all_digits(s: Seq<char>) -> bool {
    forall|i: int| 0 <= i < s.len() ==> #[trigger] is_digit(s[i])
}

pub open spec fn digit_value(c: char) -> int {
    (c as int) - ('0' as int)
}

/// The value of a string of decimal digits.
pub open spec fn digits_value(s: Seq<char>) -> int
    decreases s.len(),
{
    if s.len() == 0 {
        0
    } else {
        digits_value(s.drop_last()) * 10 + digit_value(s.last())
    }
}

pub open spec fn is_sign(c: char) -> bool {
    c == '+' || c == '-'
}

/// What follows an optional leading sign.
pub open spec fn unsigned_part(s: Seq<char>) -> Seq<char> {
    if s.len() > 0 && is_sign(s[0]) {
        s.drop_first()
    } else {
        s
    }
}

/// The value of an optionally signed decimal literal.
pub open spec fn signed_value(s: Seq<char>) -> int {
    if s.len() > 0 && s[0] == '-' {
        -digits_value(s.drop_first())
    } else {
        digits_value(unsigned_part(s))
    }
}

/// A base-10 literal of a signed 32-bit integer: an optional sign, then one or more digits,
/// with a value in range.
pub open spec fn is_int_literal(s: Seq<char>) -> bool {
    &&& unsigned_part(s).len() > 0
    &&& all_digits(unsigned_part(s))
    &&& i32::MIN <= signed_value(s) <= i32::MAX
}

pub open spec fn is_bool_literal(s: Seq<char>) -> bool {
    s == seq!['t', 'r', 'u', 'e'] || s == seq!['f', 'a', 'l', 's', 'e']
}

/// `c` is the letter `lo`, in either case (`up` is its upper case).
pub open spec fn letter(c: char, lo: char, up: char) -> bool {
    c == lo || c == up
}

pub open spec fn is_inf_word(s: Seq<char>) -> bool {
    ||| s.len() == 3 && letter(s[0], 'i', 'I') && letter(s[1], 'n', 'N') && letter(s[2], 'f', 'F')
    ||| s.len() == 8 && letter(s[0], 'i', 'I') && letter(s[1], 'n', 'N') && letter(s[2], 'f', 'F')
        && letter(s[3], 'i', 'I') && letter(s[4], 'n', 'N') && letter(s[5], 'i', 'I')
        && letter(s[6], 't', 'T') && letter(s[7], 'y', 'Y')
    ||| s.len() == 3 && letter(s[0], 'n', 'N') && letter(s[1], 'a', 'A') && letter(s[2], 'n', 'N')
}

/// Digits with at most one decimal point, and at least one digit.
pub open spec fn is_mantissa(m: Seq<char>) -> bool {
    &&& forall|i: int| 0 <= i < m.len() ==> is_digit(#[trigger] m[i]) || m[i] == '.'
    &&& forall|i: int, j: int| 0 <= i < m.len() && 0 <= j < m.len() && #[trigger] m[i] == '.'
        && #[trigger] m[j] == '.' ==> i == j
    &&& exists|i: int| 0 <= i < m.len() && is_digit(#[trigger] m[i])
}

/// An exponent after its `e`: an optional sign and one or more digits.
pub open spec fn is_exponent(x: Seq<char>) -> bool {
    unsigned_part(x).len() > 0 && all_digits(unsigned_part(x))
}

pub open spec fn is_exp_mark(c: char) -> bool {
    c == 'e' || c == 'E'
}

/// A decimal number: a mantissa, then an optional exponent.
pub open spec fn is_number(b: Seq<char>) -> bool {
    ||| (forall|i: int| 0 <= i < b.len() ==> !is_exp_mark(#[trigger] b[i])) && is_mantissa(b)
    ||| exists|k: int|
        0 <= k < b.len() && is_exp_mark(#[trigger] b[k]) && is_mantissa(b.subrange(0, k))
            && is_exponent(b.subrange(k + 1, b.len() as int))
}

/// The literals that std's float parsing accepts: an optional sign, then `inf`, `infinity`,
/// `nan` (in any case) or a decimal number.
pub open spec fn is_float_literal(s: Seq<char>) -> bool {
    is_inf_word(unsigned_part(s)) || is_number(unsigned_part(s))
}

/// What evaluating text against a type gives; `None` is a mismatch.
pub open spec fn evaluation(t: ArgType, s: Seq<char>) -> Option<ArgValue> {
    match t {
        ArgType::Str => Some(ArgValue::Str(s)),
        ArgType::Int => if is_int_literal(s) {
            Some(ArgValue::Int(signed_value(s)))
        } else {
            None
        },
        ArgType::Float => if is_float_literal(s) {
            Some(ArgValue::Float(s))
        } else {
            None
        },
        ArgType::Bool => if is_bool_literal(s) {
            Some(ArgValue::Bool(s == seq!['t', 'r', 'u', 'e']))
        } else {
            None
        },
    }
}

/// Evaluation is a function of the type and the text alone: the same pair always gives the
/// same value, or the same mismatch.
pub proof fn lemma_evaluation_deterministic(t: ArgType, s1: Seq<char>, s2: Seq<char>)
    requires
        s1 == s2,
    ensures
        evaluation(t, s1) == evaluation(t, s2),
{
}

proof fn lemma_digits_value_nonneg(s: Seq<char>)
    requires
        all_digits(s),
    ensures
        digits_value(s) >= 0,
    decreases s.len(),
{
    if s.len() > 0 {
        assert(is_digit(s[s.len() - 1]));
        lemma_digits_value_nonneg(s.drop_last());
    }
}

/// A prefix of a digit string never has a larger value than the whole.
proof fn lemma_digits_prefix(s: Seq<char>, j: int)
    requires
        all_digits(s),
        0 <= j <= s.len(),
    ensures
        digits_value(s.subrange(0, j)) <= digits_value(s),
    decreases s.len(),
{
    if j < s.len() {
        let p = s.drop_last();
        assert(is_digit(s[s.len() - 1]));
        lemma_digits_value_nonneg(p);
        lemma_digits_prefix(p, j);
        assert(p.subrange(0, j) =~= s.subrange(0, j));
    } else {
        assert(s.subrange(0, j) =~= s);
    }
}

fn is_digit_char(c: char) -> (r: bool)
    ensures
        r == is_digit(c),
{
    '0' <= c && c <= '9'
}

/// Parses a signed 32-bit decimal literal.
pub fn parse_int(v: &Vec<char>) -> (r: Option<i32>)
    ensures
        r is Some <==> is_int_literal(v@),
        r is Some ==> r->0 as int == signed_value(v@),
{
    let n = v.len();
    let mut start: usize = 0;
    let mut negative = false;
    if n > 0 && (v[0] == '+' || v[0] == '-') {
        negative = v[0] == '-';
        start = 1;
    }
    let ghost body = unsigned_part(v@);
    assert(body =~= v@.subrange(start as int, n as int));
    if start >= n {
        return None;
    }
    let mut acc: i64 = 0;
    let mut i: usize = start;
    while i < n
        invariant
            start <= i <= n == v@.len(),
            body == v@.subrange(start as int, n as int),
            body == unsigned_part(v@),
            negative <==> (v@.len() > 0 && v@[0] == '-'),
            0 <= acc <= 2147483648,
            acc as int == digits_value(v@.subrange(start as int, i as int)),
            all_digits(v@.subrange(start as int, i as int)),
        decreases n - i,
    {
        let c = v[i];
        if !is_digit_char(c) {
            assert(body[i - start] == c);
            return None;
        }
        proof {
            assert(v@.subrange(start as int, i + 1).drop_last() =~= v@.subrange(
                start as int,
                i as int,
            ));
        }
        acc = acc * 10 + ((c as u32) - ('0' as u32)) as i64;
        assert(all_digits(v@.subrange(start as int, i + 1)));
        if acc > 2147483648 {
            proof {
                if all_digits(body) {
                    lemma_digits_prefix(body, (i + 1 - start) as int);
                    assert(body.subrange(0, (i + 1 - start) as int) =~= v@.subrange(
                        start as int,
                        i + 1,
                    ));
                }
            }
            return None;
        }
        i = i + 1;
    }
    assert(v@.subrange(start as int, n as int) =~= body);
    assert(negative <==> v@[0] == '-');
    let value: i64 = if negative {
        -acc
    } else {
        acc
    };
    if value > 2147483647 {
        None
    } else {
        Some(value as i32)
    }
}

fn is_exp_char(c: char) -> (r: bool)
    ensures
        r == is_exp_mark(c),
{
    c == 'e' || c == 'E'
}

fn letter_at(v: &Vec<char>, i: usize, lo: char, up: char) -> (r: bool)
    requires
        i < v@.len(),
    ensures
        r == letter(v@[i as int], lo, up),
{
    v[i] == lo || v[i] == up
}

/// Whether `v[from..to]` is `inf`, `infinity` or `nan`, in any case.
fn inf_word_at(v: &Vec<char>, from: usize, to: usize) -> (r: bool)
    requires
        from <= to <= v@.len(),
    ensures
        r == is_inf_word(v@.subrange(from as int, to as int)),
{
    let len = to - from;
    if len == 3 {
        (letter_at(v, from, 'i', 'I') && letter_at(v, from + 1, 'n', 'N') && letter_at(
            v,
            from + 2,
            'f',
            'F',
        )) || (letter_at(v, from, 'n', 'N') && letter_at(v, from + 1, 'a', 'A') && letter_at(
            v,
            from + 2,
            'n',
            'N',
        ))
    } else if len == 8 {
        letter_at(v, from, 'i', 'I') && letter_at(v, from + 1, 'n', 'N') && letter_at(
            v,
            from + 2,
            'f',
            'F',
        ) && letter_at(v, from + 3, 'i', 'I') && letter_at(v, from + 4, 'n', 'N') && letter_at(
            v,
            from + 5,
            'i',
            'I',
        ) && letter_at(v, from + 6, 't', 'T') && letter_at(v, from + 7, 'y', 'Y')
    } else {
        false
    }
}

/// Whether `v[from..to]` is a mantissa: digits, at most one point, at least one digit.
fn mantissa_at(v: &Vec<char>, from: usize, to: usize) -> (r: bool)
    requires
        from <= to <= v@.len(),
    ensures
        r == is_mantissa(v@.subrange(from as int, to as int)),
{
    let ghost m = v@.subrange(from as int, to as int);
    let mut i: usize = from;
    let mut dot: Option<usize> = None;
    let mut digit = false;
    while i < to
        invariant
            from <= i <= to <= v@.len(),
            m == v@.subrange(from as int, to as int),
            forall|k: int| 0 <= k < i - from ==> is_digit(#[trigger] m[k]) || m[k] == '.',
            dot is None ==> forall|k: int| 0 <= k < i - from ==> #[trigger] m[k] != '.',
            dot is Some ==> from <= dot->0 < i && m[dot->0 - from] == '.' && forall|k: int|
                0 <= k < i - from && k != dot->0 - from ==> #[trigger] m[k] != '.',
            digit <==> exists|k: int| 0 <= k < i - from && is_digit(#[trigger] m[k]),
        decreases to - i,
    {
        let c = v[i];
        assert(m[i - from] == c);
        if is_digit_char(c) {
            digit = true;
        } else if c == '.' {
            if dot.is_some() {
                let d = dot.unwrap();
                assert(m[d - from] == '.' && m[i - from] == '.');
                return false;
            }
            dot = Some(i);
        } else {
            assert(!(is_digit(m[i - from]) || m[i - from] == '.'));
            return false;
        }
        i = i + 1;
    }
    digit
}

/// Whether `v[from..to]` is an exponent: an optional sign and one or more digits.
fn exponent_at(v: &Vec<char>, from: usize, to: usize) -> (r: bool)
    requires
        from <= to <= v@.len(),
    ensures
        r == is_exponent(v@.subrange(from as int, to as int)),
{
    let ghost x = v@.subrange(from as int, to as int);
    let mut start = from;
    if from < to && (v[from] == '+' || v[from] == '-') {
        start = from + 1;
    }
    assert(unsigned_part(x) =~= v@.subrange(start as int, to as int));
    if start >= to {
        return false;
    }
    let ghost u = unsigned_part(x);
    let mut i = start;
    while i < to
        invariant
            start <= i <= to <= v@.len(),
            u == v@.subrange(start as int, to as int),
            u == unsigned_part(x),
            x == v@.subrange(from as int, to as int),
            forall|k: int| start <= k < i ==> #[trigger] is_digit(v@[k]),
        decreases to - i,
    {
        if !is_digit_char(v[i]) {
            assert(u[i - start] == v@[i as int]);
            return false;
        }
        i = i + 1;
    }
    assert(all_digits(unsigned_part(x)));
    true
}

/// Whether `v[from..to]` is a decimal number.
fn number_at(v: &Vec<char>, from: usize, to: usize) -> (r: bool)
    requires
        from <= to <= v@.len(),
    ensures
        r == is_number(v@.subrange(from as int, to as int)),
{
    let ghost b = v@.subrange(from as int, to as int);
    let mut k = from;
    while k < to && !is_exp_char(v[k])
        invariant
            from <= k <= to <= v@.len(),
            b == v@.subrange(from as int, to as int),
            forall|i: int| 0 <= i < k - from ==> !is_exp_mark(#[trigger] b[i]),
        decreases to - k,
    {
        assert(b[k - from] == v@[k as int]);
        k = k + 1;
    }
    if k == to {
        let r = mantissa_at(v, from, to);
        proof {
            assert(forall|i: int| 0 <= i < b.len() ==> !is_exp_mark(#[trigger] b[i]));
        }
        r
    } else {
        let ghost j = (k - from) as int;
        assert(b[j] == v@[k as int]);
        let m = mantissa_at(v, from, k);
        let x = exponent_at(v, k + 1, to);
        assert(b.subrange(0, j) =~= v@.subrange(from as int, k as int));
        assert(b.subrange(j + 1, b.len() as int) =~= v@.subrange(k + 1, to as int));
        proof {
            if !(m && x) {
                assert forall|k2: int|
                    0 <= k2 < b.len() && is_exp_mark(#[trigger] b[k2]) implies !(is_mantissa(
                    b.subrange(0, k2),
                ) && is_exponent(b.subrange(k2 + 1, b.len() as int))) by {
                    if k2 > j {
                        let p = b.subrange(0, k2);
                        assert(p[j] == b[j]);
                        assert(!(is_digit(p[j]) || p[j] == '.'));
                    }
                }
            }
        }
        m && x
    }
}

/// Whether `v` is a literal that std's float parsing accepts.
pub fn is_float_text(v: &Vec<char>) -> (r: bool)
    ensures
        r == is_float_literal(v@),
{
    let n = v.len();
    let mut start: usize = 0;
    if n > 0 && (v[0] == '+' || v[0] == '-') {
        start = 1;
    }
    assert(unsigned_part(v@) =~= v@.subrange(start as int, n as int));
    inf_word_at(v, start, n) || number_at(v, start, n)
}

fn bool_text(v: &Vec<char>) -> (r: Option<bool>)
    ensures
        r is Some <==> is_bool_literal(v@),
        r is Some ==> r->0 == (v@ == seq!['t', 'r', 'u', 'e']),
{
    if v.len() == 4 && v[0] == 't' && v[1] == 'r' && v[2] == 'u' && v[3] == 'e' {
        assert(v@ =~= seq!['t', 'r', 'u', 'e']);
        Some(true)
    } else if v.len() == 5 && v[0] == 'f' && v[1] == 'a' && v[2] == 'l' && v[3] == 's' && v[4]
        == 'e' {
        assert(v@ =~= seq!['f', 'a', 'l', 's', 'e']);
        Some(false)
    } else {
        assert(v@ != seq!['t', 'r', 'u', 'e'] ==> v@.len() != 4 || v@[0] != 't' || v@[1] != 'r'
            || v@[2] != 'u' || v@[3] != 'e');
        None
    }
}

impl ArgType {
    /// Checks the token's text against this type and converts it.
    pub fn evaluate(&self, value: &ArgToken) -> (r: Result<EvaluatedArg, CommandError>)
        ensures
            match r {
                Ok(arg) => evaluation(*self, token_text(value@)) == Some(arg@),
                Err(CommandError::MismatchArgument(text, t)) => evaluation(
                    *self,
                    token_text(value@),
                ) is None && text@ == token_text(value@) && t == *self,
                Err(_) => false,
            },
    {
        let value = value.to_string();
        match self {
            ArgType::Str => Ok(EvaluatedArg::Str(value)),
            ArgType::Int => {
                let v = chars_of(value.as_str());
                match parse_int(&v) {
                    Some(i) => Ok(EvaluatedArg::Int(i)),
                    None => Err(CommandError::MismatchArgument(value, ArgType::Int)),
                }
            },
            ArgType::Float => {
                let v = chars_of(value.as_str());
                if is_float_text(&v) {
                    Ok(EvaluatedArg::Float(value))
                } else {
                    Err(CommandError::MismatchArgument(value, ArgType::Float))
                }
            },
            ArgType::Bool => {
                let v = chars_of(value.as_str());
                match bool_text(&v) {
                    Some(b) => Ok(EvaluatedArg::Bool(b)),
                    None => Err(CommandError::MismatchArgument(value, ArgType::Bool)),
                }
            },
        }
    }
}

impl EvaluatedArg {
    pub fn get_str(&self) -> (r: Option<String>)
        ensures
            match self@ {
                ArgValue::Str(s) => r is Some && r->0@ == s,
                _ => r is None,
            },
    {
        match self {
            EvaluatedArg::Str(result) => Some(result.clone()),
            _ => None,
        }
    }

    pub fn get_int(&self) -> (r: Option<i32>)
        ensures
            match self@ {
                ArgValue::Int(i) => r is Some && r->0 as int == i,
                _ => r is None,
            },
    {
        match self {
            EvaluatedArg::Int(result) => Some(*result),
            _ => None,
        }
    }

    /// The accepted float literal, as text.
    pub fn get_float(&self) -> (r: Option<String>)
        ensures
            match self@ {
                ArgValue::Float(s) => r is Some && r->0@ == s,
                _ => r is None,
            },
    {
        match self {
            EvaluatedArg::Float(result) => Some(result.clone()),
            _ => None,
        }
    }

    pub fn get_bool(&self) -> (r: Option<bool>)
        ensures
            match self@ {
                ArgValue::Bool(b) => r == Some(b),
                _ => r is None,
            },
    {
        match self {
            EvaluatedArg::Bool(result) => Some(*result),
            _ => None,
        }
    }
}

} // verus!

use vstd::prelude::*;
use crate::error::InputError;
use crate::text::{chars_of, push_char, string_of};

verus! {

/// The model of an argument token: its kind and its text.
pub ghost enum TokenModel {
    Literal(Seq<char>),
    Flag(Seq<char>),
}

/// One argument of a command line: a positional literal, or a flag with its `--` stripped.
#[derive(Debug)]
pub enum ArgToken {
    Literal(String),
    Flag(String),
}

impl View for ArgToken {
    type V = TokenModel;

    open spec fn view(&self) -> TokenModel {
        match self {
            ArgToken::Literal(t) => TokenModel::Literal(t@),
            ArgToken::Flag(t) => TokenModel::Flag(t@),
        }
    }
}

/// The text a token carries, whatever its kind.
pub open spec fn token_text(t: TokenModel) -> Seq<char> {
    match t {
        TokenModel::Literal(s) => s,
        TokenModel::Flag(s) => s,
    }
}

impl ArgToken {
    /// The token's text; a flag gives its name without the `--` prefix.
    pub fn to_string(&self) -> (r: String)
        ensures
            r@ == token_text(self@),
    {
        match self {
            ArgToken::Literal(text) => text.clone(),
            ArgToken::Flag(text) => text.clone(),
        }
    }
}


/// The command's name: the first token of a line.
#[derive(Debug)]
pub struct IdentifierToken(pub String);

pub open spec fn is_blank(c: char) -> bool {
    c == ' ' || c == '\n' || c == '\t'
}

pub open spec fn is_lower(c: char) -> bool {
    'a' <= c <= 'z'
}

pub open spec fn is_alnum(c: char) -> bool {
    is_lower(c) || ('A' <= c <= 'Z') || ('0' <= c <= '9')
}

/// The identifier grammar: a lowercase letter followed by ASCII letters and digits.
pub open spec fn is_identifier(s: Seq<char>) -> bool {
    &&& s.len() > 0
    &&& is_lower(s[0])
    &&& forall|i: int| 1 <= i < s.len() ==> #[trigger] is_alnum(s[i])
}

/// A flag: `--` followed by a lowercase letter; whatever comes after is part of its name.
pub open spec fn is_flag(s: Seq<char>) -> bool {
    s.len() >= 3 && s[0] == '-' && s[1] == '-' && is_lower(s[2])
}

/// Where a scan stands: the tokens finished so far, the one being read, and whether a quote is open.
pub ghost struct ScanState {
    pub tokens: Seq<Seq<char>>,
    pub current: Seq<char>,
    pub quoting: bool,
}

/// One character of the scan. A quote toggles quoting, and closing one ends a token, even an
/// empty one. Outside quotes a blank ends a non-empty token; inside them it is text.
pub open spec fn scan_step(st: ScanState, c: char) -> ScanState {
    if c == '"' {
        if st.quoting {
            ScanState { tokens: st.tokens.push(st.current), current: Seq::empty(), quoting: false }
        } else {
            ScanState { quoting: true, ..st }
        }
    } else if is_blank(c) && !st.quoting {
        if st.current.len() > 0 {
            ScanState { tokens: st.tokens.push(st.current), current: Seq::empty(), quoting: false }
        } else {
            st
        }
    } else {
        ScanState { current: st.current.push(c), ..st }
    }
}

pub open spec fn scan(s: Seq<char>) -> ScanState
    decreases s.len(),
{
    if s.len() == 0 {
        ScanState { tokens: Seq::empty(), current: Seq::empty(), quoting: false }
    } else {
        scan_step(scan(s.drop_last()), s.last())
    }
}

/// The raw tokens of a line. At the end of the input an open quote closes, and a pending
/// token is kept.
pub open spec fn raw_tokens(s: Seq<char>) -> Seq<Seq<char>> {
    let st = scan(s);
    if st.quoting || st.current.len() > 0 {
        st.tokens.push(st.current)
    } else {
        st.tokens
    }
}

/// How a raw argument token is classified.
pub open spec fn classify(t: Seq<char>) -> TokenModel {
    if is_flag(t) {
        TokenModel::Flag(t.subrange(2, t.len() as int))
    } else {
        TokenModel::Literal(t)
    }
}

/// A line tokenizes when it has a first token and that token is an identifier.
pub open spec fn tokenizes(s: Seq<char>) -> bool {
    raw_tokens(s).len() > 0 && is_identifier(raw_tokens(s)[0])
}

/// The classified argument tokens of a line: every raw token after the first.
pub open spec fn argument_tokens(s: Seq<char>) -> Seq<TokenModel> {
    raw_tokens(s).drop_first().map_values(|t: Seq<char>| classify(t))
}

pub open spec fn string_views(v: Seq<String>) -> Seq<Seq<char>> {
    v.map_values(|t: String| t@)
}

pub open spec fn token_views(v: Seq<ArgToken>) -> Seq<TokenModel> {
    v.map_values(|t: ArgToken| t@)
}

/// Relies on regex's `Regex::new` and `Regex::is_match`, for the two patterns the tokenizer uses.
/// Both compile; a match anywhere counts, so the anchors make the first a whole-text match
/// and the second a prefix match.
#[verifier::external_body]
fn regex_is_match(pattern: &str, text: &str) -> (r: bool)
    requires
        pattern@ == "^[a-z][a-zA-Z0-9]*$"@ || pattern@ == "^--[a-z][a-zA-Z0-9]*"@,
    ensures
        pattern@ == "^[a-z][a-zA-Z0-9]*$"@ ==> r == is_identifier(text@),
        pattern@ == "^--[a-z][a-zA-Z0-9]*"@ ==> r == is_flag(text@),
{
    regex::Regex::new(pattern).unwrap().is_match(text)
}

pub(crate) fn is_identifier_text(text: &str) -> (r: bool)
    ensures
        r == is_identifier(text@),
{
    regex_is_match("^[a-z][a-zA-Z0-9]*$", text)
}

fn is_flag_text(text: &str) -> (r: bool)
    ensures
        r == is_flag(text@),
{
    regex_is_match("^--[a-z][a-zA-Z0-9]*", text)
}

/// Splits a line into raw tokens, honouring quotes.
pub fn get_raw_tokens(raw_string: &str) -> (r: Vec<String>)
    ensures
        string_views(r@) == raw_tokens(raw_string@),
{
    let chars = chars_of(raw_string);
    let ghost s = chars@;
    let mut tokens: Vec<String> = Vec::new();
    let mut raw_token = String::new();
    let mut quoting = false;
    let mut i: usize = 0;
    assert(s.subrange(0, 0) =~= Seq::<char>::empty());
    assert(string_views(tokens@) =~= Seq::<Seq<char>>::empty());
    while i < chars.len()
        invariant
            s == chars@,
            i <= s.len(),
            scan(s.subrange(0, i as int)) == (ScanState {
                tokens: string_views(tokens@),
                current: raw_token@,
                quoting,
            }),
        decreases s.len() - i,
    {
        let c = chars[i];
        proof {
            assert(s.subrange(0, i + 1).drop_last() =~= s.subrange(0, i as int));
        }
        if c == '"' {
            if quoting {
                tokens.push(raw_token);
                raw_token = String::new();
                assert(string_views(tokens@) =~= scan(s.subrange(0, i + 1)).tokens);
            }
            quoting = !quoting;
        } else if (c == ' ' || c == '\n' || c == '\t') && !quoting {
            if !raw_token.as_str().is_empty() {
                tokens.push(raw_token);
                raw_token = String::new();
                assert(string_views(tokens@) =~= scan(s.subrange(0, i + 1)).tokens);
            }
        } else {
            push_char(&mut raw_token, c);
        }
        i = i + 1;
    }
    assert(s.subrange(0, i as int) =~= s);
    if quoting || !raw_token.as_str().is_empty() {
        tokens.push(raw_token);
        assert(string_views(tokens@) =~= raw_tokens(s));
    }
    tokens
}

/// Tokenizes a line into the command's identifier and its classified arguments.
pub fn get_tokens(line: &str) -> (r: Result<(IdentifierToken, Vec<ArgToken>), InputError>)
    ensures
        match r {
            Ok((id, args)) => tokenizes(line@) && id.0@ == raw_tokens(line@)[0] && token_views(
                args@,
            ) == argument_tokens(line@),
            Err(InputError::EmptyInput) => raw_tokens(line@).len() == 0,
            Err(InputError::NotACommand(t)) => raw_tokens(line@).len() > 0 && !is_identifier(
                raw_tokens(line@)[0],
            ) && t@ == raw_tokens(line@)[0],
            Err(_) => false,
        },
{
    let raw = get_raw_tokens(line);
    let ghost rs = raw_tokens(line@);
    assert(raw@.len() == rs.len());
    if raw.len() == 0 {
        return Err(InputError::EmptyInput);
    }
    assert(raw@[0]@ == rs[0]);
    if !is_identifier_text(raw[0].as_str()) {
        return Err(InputError::NotACommand(raw[0].clone()));
    }
    let identifier = IdentifierToken(raw[0].clone());
    let mut args: Vec<ArgToken> = Vec::new();
    let mut i: usize = 1;
    while i < raw.len()
        invariant
            1 <= i <= raw@.len() == rs.len(),
            rs == raw_tokens(line@),
            string_views(raw@) == rs,
            token_views(args@) == rs.subrange(1, i as int).map_values(|t: Seq<char>| classify(t)),
        decreases raw@.len() - i,
    {
        let arg = &raw[i];
        assert(arg@ == rs[i as int]);
        let token = if is_flag_text(arg.as_str()) {
            let text = chars_of(arg.as_str());
            ArgToken::Flag(string_of(&text, 2, text.len()))
        } else {
            ArgToken::Literal(arg.clone())
        };
        assert(token@ == classify(rs[i as int]));
        let ghost before = args@;
        let ghost tv = token@;
        args.push(token);
        assert(rs.subrange(1, i + 1) =~= rs.subrange(1, i as int).push(rs[i as int]));
        assert(token_views(args@) =~= token_views(before).push(tv));
        assert(token_views(args@) =~= rs.subrange(1, i + 1).map_values(
            |t: Seq<char>| classify(t),
        ));
        i = i + 1;
    }
    assert(rs.subrange(1, i as int) =~= rs.drop_first());
    Ok((identifier, args))
}

} // verus!

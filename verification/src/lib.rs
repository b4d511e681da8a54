//! A minimal interactive command interpreter: a quote-aware lexer that
//! splits an input line into tokens, a fixed set of shell builtins, a
//! search-path resolver, and a dispatcher that routes a tokenized line
//! to a builtin or an external program.
//!
//! The lexer and the decision logic of every builtin and of the
//! dispatcher are verified; reading lines, touching the filesystem and
//! spawning processes are left to an unverified driver that calls in
//! with plain values.

use vstd::prelude::*;

pub mod builtins;
pub mod dispatch;

verus! {

/// Relies on std's `String::push`, which appends exactly the given
/// character to the end of the string.
pub assume_specification[ String::push ](s: &mut String, ch: char)
    ensures
        final(s)@ == old(s)@.push(ch),
;

/// The lexer's scanning state: outside quotes, inside single quotes, or
/// inside double quotes. The scan must end in `Normal`, or the whole
/// line is rejected as an unterminated quote.
#[derive(Clone, Copy)]
pub enum LexState {
    Normal,
    InSingleQuote,
    InDoubleQuote,
}

/// Whitespace that separates tokens outside quotes.
pub open spec fn is_space(c: char) -> bool {
    c == ' ' || c == '\t'
}

/// The characters a backslash may escape inside double quotes; before
/// any other character the backslash itself is kept literally.
pub open spec fn dq_escapable(c: char) -> bool {
    c == '"' || c == '$' || c == '`' || c == '\\'
}

/// Close the current token: an empty accumulator adds no token.
pub open spec fn commit(cur: Seq<char>, toks: Seq<Seq<char>>) -> Seq<Seq<char>> {
    if cur.len() == 0 {
        toks
    } else {
        toks.push(cur)
    }
}

/// One left-to-right scan of the remaining input `s`, in state `st`,
/// with the token accumulated so far `cur` and the tokens already
/// produced `toks`. `None` means the input ended inside a quote.
pub open spec fn lex_from(
    s: Seq<char>,
    st: LexState,
    cur: Seq<char>,
    toks: Seq<Seq<char>>,
) -> Option<Seq<Seq<char>>>
    decreases s.len(),
{
    if s.len() == 0 {
        match st {
            LexState::Normal => Some(commit(cur, toks)),
            _ => None,
        }
    } else {
        let c = s[0];
        let rest = s.drop_first();
        match st {
            LexState::Normal => {
                if is_space(c) {
                    lex_from(rest, LexState::Normal, Seq::empty(), commit(cur, toks))
                } else if c == '\'' {
                    lex_from(rest, LexState::InSingleQuote, cur, toks)
                } else if c == '"' {
                    lex_from(rest, LexState::InDoubleQuote, cur, toks)
                } else if c == '\\' {
                    if rest.len() == 0 {
                        // A trailing backslash drops the escape.
                        lex_from(rest, LexState::Normal, cur, toks)
                    } else {
                        lex_from(rest.drop_first(), LexState::Normal, cur.push(rest[0]), toks)
                    }
                } else {
                    lex_from(rest, LexState::Normal, cur.push(c), toks)
                }
            },
            LexState::InSingleQuote => {
                if c == '\'' {
                    lex_from(rest, LexState::Normal, cur, toks)
                } else {
                    lex_from(rest, LexState::InSingleQuote, cur.push(c), toks)
                }
            },
            LexState::InDoubleQuote => {
                if c == '"' {
                    lex_from(rest, LexState::Normal, cur, toks)
                } else if c == '\\' {
                    if rest.len() == 0 {
                        // The dangling backslash adds nothing; the quote
                        // is still open, so the scan fails at the end.
                        lex_from(rest, LexState::InDoubleQuote, cur, toks)
                    } else if dq_escapable(rest[0]) {
                        lex_from(rest.drop_first(), LexState::InDoubleQuote, cur.push(rest[0]), toks)
                    } else {
                        lex_from(rest, LexState::InDoubleQuote, cur.push('\\'), toks)
                    }
                } else {
                    lex_from(rest, LexState::InDoubleQuote, cur.push(c), toks)
                }
            },
        }
    }
}

/// What tokenizing a whole line yields: the token sequence, or `None`
/// when the line ends inside a quote.
pub open spec fn lex_spec(s: Seq<char>) -> Option<Seq<Seq<char>>> {
    lex_from(s, LexState::Normal, Seq::<char>::empty(), Seq::<Seq<char>>::empty())
}

/// Tokenizing is deterministic: the tokens of a line are a function of
/// the line's characters alone, so any two outcomes that `lex`'s
/// contract admits for the same input are the same outcome.
pub proof fn lemma_lex_deterministic(
    input: Seq<char>,
    a: Option<Seq<Seq<char>>>,
    b: Option<Seq<Seq<char>>>,
)
    requires
        a == lex_spec(input),
        b == lex_spec(input),
    ensures
        a == b,
{
}

/// A scan of whitespace alone closes no token: it keeps the tokens
/// already produced and succeeds.
proof fn lemma_lex_from_whitespace(s: Seq<char>, toks: Seq<Seq<char>>)
    requires
        forall|i: int| 0 <= i < s.len() ==> is_space(s[i]),
    ensures
        lex_from(s, LexState::Normal, Seq::<char>::empty(), toks) == Some(toks),
    decreases s.len(),
{
    if s.len() > 0 {
        assert(is_space(s[0]));
        assert forall|i: int| 0 <= i < s.drop_first().len() implies is_space(
            s.drop_first()[i],
        ) by {
            assert(s.drop_first()[i] == s[i + 1]);
        }
        lemma_lex_from_whitespace(s.drop_first(), toks);
    }
}

/// Empty input, or input of whitespace alone, yields the empty token
/// sequence, not an error.
pub proof fn lemma_lex_whitespace_only(s: Seq<char>)
    requires
        forall|i: int| 0 <= i < s.len() ==> is_space(s[i]),
    ensures
        lex_spec(s) == Some(Seq::<Seq<char>>::empty()),
{
    lemma_lex_from_whitespace(s, Seq::<Seq<char>>::empty());
}

/// The character sequences of a sequence of strings.
pub open spec fn views(toks: Seq<String>) -> Seq<Seq<char>> {
    toks.map_values(|t: String| t@)
}

/// Character-for-character equality of two string slices.
pub fn str_eq(a: &str, b: &str) -> (r: bool)
    ensures
        r == (a@ == b@),
{
    let na = a.unicode_len();
    let nb = b.unicode_len();
    if na != nb {
        return false;
    }
    let mut i: usize = 0;
    while i < na
        invariant
            na == a@.len(),
            nb == b@.len(),
            na == nb,
            i <= na,
            forall|j: int| 0 <= j < i ==> a@[j] == b@[j],
        decreases na - i,
    {
        if a.get_char(i) != b.get_char(i) {
            return false;
        }
        i += 1;
    }
    proof {
        assert(a@ =~= b@);
    }
    true
}

/// Splits an input line into tokens, honoring single quotes, double
/// quotes and backslash escapes. The result is exactly what one
/// left-to-right scan of the line yields; a line that ends inside a
/// quote is rejected.
pub fn lex(input: &str) -> (r: Result<Vec<String>, String>)
    ensures
        match r {
            Ok(toks) => lex_spec(input@) == Some(views(toks@)),
            Err(e) => lex_spec(input@) is None && e@ == "Unterminated quote detected"@,
        },
        r is Ok <==> lex_spec(input@) is Some,
{
    let n = input.unicode_len();
    let mut tokens: Vec<String> = Vec::new();
    let mut current: String = String::new();
    let mut state = LexState::Normal;
    let mut i: usize = 0;
    proof {
        assert(input@.subrange(0, n as int) =~= input@);
        assert(views(tokens@) =~= Seq::<Seq<char>>::empty());
    }
    while i < n
        invariant
            n == input@.len(),
            i <= n,
            lex_from(input@.subrange(i as int, n as int), state, current@, views(tokens@))
                == lex_spec(input@),
        decreases n - i,
    {
        let ghost pre = input@.subrange(i as int, n as int);
        let c = input.get_char(i);
        proof {
            assert(pre[0] == input@[i as int]);
            assert(pre.drop_first() =~= input@.subrange(i as int + 1, n as int));
        }
        match state {
            LexState::Normal => {
                if c == ' ' || c == '\t' {
                    if !current.as_str().is_empty() {
                        let ghost toks0 = tokens@;
                        let ghost cur0 = current@;
                        tokens.push(current);
                        current = String::new();
                        proof {
                            assert(views(tokens@) =~= commit(cur0, views(toks0)));
                        }
                    }
                    proof {
                        assert(current@ =~= Seq::<char>::empty());
                    }
                    i += 1;
                } else if c == '\'' {
                    state = LexState::InSingleQuote;
                    i += 1;
                } else if c == '"' {
                    state = LexState::InDoubleQuote;
                    i += 1;
                } else if c == '\\' {
                    if i + 1 < n {
                        let nx = input.get_char(i + 1);
                        proof {
                            assert(pre.drop_first()[0] == input@[i as int + 1]);
                            assert(pre.drop_first().drop_first()
                                =~= input@.subrange(i as int + 2, n as int));
                        }
                        current.push(nx);
                        i += 2;
                    } else {
                        i += 1;
                    }
                } else {
                    current.push(c);
                    i += 1;
                }
            },
            LexState::InSingleQuote => {
                if c == '\'' {
                    state = LexState::Normal;
                } else {
                    current.push(c);
                }
                i += 1;
            },
            LexState::InDoubleQuote => {
                if c == '"' {
                    state = LexState::Normal;
                    i += 1;
                } else if c == '\\' {
                    if i + 1 < n {
                        let nx = input.get_char(i + 1);
                        proof {
                            assert(pre.drop_first()[0] == input@[i as int + 1]);
                            assert(pre.drop_first().drop_first()
                                =~= input@.subrange(i as int + 2, n as int));
                        }
                        if nx == '"' || nx == '$' || nx == '`' || nx == '\\' {
                            current.push(nx);
                            i += 2;
                        } else {
                            current.push('\\');
                            i += 1;
                        }
                    } else {
                        i += 1;
                    }
                } else {
                    current.push(c);
                    i += 1;
                }
            },
        }
    }
    proof {
        assert(input@.subrange(i as int, n as int) =~= Seq::<char>::empty());
    }
    match state {
        LexState::Normal => {
            if !current.as_str().is_empty() {
                let ghost toks0 = tokens@;
                let ghost cur0 = current@;
                tokens.push(current);
                proof {
                    assert(views(tokens@) =~= commit(cur0, views(toks0)));
                }
            }
            Ok(tokens)
        },
        _ => Err("Unterminated quote detected".to_owned()),
    }
}

} // verus!

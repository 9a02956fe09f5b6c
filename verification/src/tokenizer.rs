//! The tokenizer: scans raw query text left to right, one token per step,
//! and returns the token sequence with all whitespace filtered out, or a
//! `TokenizerError` naming the first unrecognized character.

use vstd::prelude::*;
use vstd::string::StrSliceExecFns;
use vstd::string::StringExecFns;
use crate::token::{Token, SpecToken, ParserError, tokens_view, spec_is_keyword, is_keyword};

verus! {

/// Whitespace characters: space, tab, newline.
pub open spec fn is_space_char(c: char) -> bool {
    c == ' ' || c == '\t' || c == '\n'
}

/// Characters that may start an identifier or keyword lexeme.
pub open spec fn is_ident_start_char(c: char) -> bool {
    ('a' <= c && c <= 'z') || ('A' <= c && c <= 'Z') || c == '_' || c == '@'
}

/// Characters that may continue an identifier or keyword lexeme
/// (`@` may start a lexeme but does not continue one).
pub open spec fn is_ident_cont_char(c: char) -> bool {
    ('a' <= c && c <= 'z') || ('A' <= c && c <= 'Z') || ('0' <= c && c <= '9') || c == '_'
}

/// ASCII decimal digits.
pub open spec fn is_digit_char(c: char) -> bool {
    '0' <= c && c <= '9'
}

/// The characters the tokenizer recognizes; any other character is a lexical
/// error.
pub open spec fn is_handled_char(c: char) -> bool {
    ||| is_space_char(c)
    ||| is_ident_start_char(c)
    ||| is_digit_char(c)
    ||| c == '+'
    ||| c == '-'
    ||| c == '*'
    ||| c == '/'
    ||| c == '='
    ||| c == '<'
    ||| c == '>'
}

/// The first position at or after `i` whose character fails `pred`
/// (or the end of the text).
pub open spec fn run_end(s: Seq<char>, i: int, pred: spec_fn(char) -> bool) -> int
    decreases s.len() - i,
{
    if 0 <= i < s.len() && pred(s[i]) {
        run_end(s, i + 1, pred)
    } else {
        i
    }
}

/// The predicate of identifier-continuation runs, fixed once so that every
/// statement about such runs speaks of the same function value.
pub open spec fn ident_cont_pred() -> spec_fn(char) -> bool {
    |c: char| is_ident_cont_char(c)
}

/// The predicate of digit runs.
pub open spec fn digit_pred() -> spec_fn(char) -> bool {
    |c: char| is_digit_char(c)
}

/// The diagnostic carried by a `TokenizerError` for the unrecognized
/// character `c`.
pub open spec fn unhandled_char_message(c: char) -> Seq<char> {
    "unhandled char '"@ + seq![c] + "' in tokenizer"@
}

/// One scanning step at position `i`: the token produced and the position
/// just past it, `Ok(None)` at the end of the text, or the unrecognized
/// character.
///
/// Dispatch on the character at `i`, in priority order: whitespace (one
/// character per token); identifier or keyword (the start character followed
/// by the maximal run of continuation characters, classified by the keyword
/// set); number (maximal digit run); the single-character operators
/// `+ - * / =`; then `<` and `>`, which absorb a following `=` (or `>` after
/// `<`) into a compound operator and stand alone otherwise.
pub open spec fn spec_next_token(s: Seq<char>, i: int) -> Result<Option<(SpecToken, int)>, char> {
    if !(0 <= i < s.len()) {
        Ok(None)
    } else {
        let c = s[i];
        if is_space_char(c) {
            Ok(Some((SpecToken::Whitespace, i + 1)))
        } else if is_ident_start_char(c) {
            let j = run_end(s, i + 1, ident_cont_pred());
            let lex = s.subrange(i, j);
            if spec_is_keyword(lex) {
                Ok(Some((SpecToken::Keyword(lex), j)))
            } else {
                Ok(Some((SpecToken::Identifier(lex), j)))
            }
        } else if is_digit_char(c) {
            let j = run_end(s, i + 1, digit_pred());
            Ok(Some((SpecToken::Number(s.subrange(i, j)), j)))
        } else if c == '+' {
            Ok(Some((SpecToken::Plus, i + 1)))
        } else if c == '-' {
            Ok(Some((SpecToken::Minus, i + 1)))
        } else if c == '*' {
            Ok(Some((SpecToken::Mult, i + 1)))
        } else if c == '/' {
            Ok(Some((SpecToken::Div, i + 1)))
        } else if c == '=' {
            Ok(Some((SpecToken::Eq, i + 1)))
        } else if c == '<' {
            if i + 1 < s.len() && s[i + 1] == '=' {
                Ok(Some((SpecToken::LtEq, i + 2)))
            } else if i + 1 < s.len() && s[i + 1] == '>' {
                Ok(Some((SpecToken::Neq, i + 2)))
            } else {
                Ok(Some((SpecToken::Lt, i + 1)))
            }
        } else if c == '>' {
            if i + 1 < s.len() && s[i + 1] == '=' {
                Ok(Some((SpecToken::GtEq, i + 2)))
            } else {
                Ok(Some((SpecToken::Gt, i + 1)))
            }
        } else {
            Err(c)
        }
    }
}

/// The raw token stream from position `i` to the end of the text, whitespace
/// included, or the first unrecognized character.
pub open spec fn spec_tokenize_from(s: Seq<char>, i: int) -> Result<Seq<SpecToken>, char>
    decreases s.len() - i,
{
    match spec_next_token(s, i) {
        Err(c) => Err(c),
        Ok(None) => Ok(Seq::empty()),
        Ok(Some((t, j))) => if i < j <= s.len() {
            match spec_tokenize_from(s, j) {
                Err(c) => Err(c),
                Ok(rest) => Ok(seq![t] + rest),
            }
        } else {
            // a scanning step always advances and stays within the text
            Ok(Seq::empty())
        },
    }
}

/// Whether a token survives the whitespace filter.
pub open spec fn not_whitespace(t: SpecToken) -> bool {
    !(t is Whitespace)
}

/// The predicate of the whitespace filter, fixed once.
pub open spec fn not_whitespace_pred() -> spec_fn(SpecToken) -> bool {
    |t: SpecToken| not_whitespace(t)
}

/// What tokenizing a complete text yields: the raw token stream with all
/// whitespace tokens removed, in order, or the first unrecognized character.
pub open spec fn spec_tokenize(s: Seq<char>) -> Result<Seq<SpecToken>, char> {
    match spec_tokenize_from(s, 0) {
        Err(c) => Err(c),
        Ok(ts) => Ok(ts.filter(not_whitespace_pred())),
    }
}

/// The tokenizer; it owns its input text for the duration of a call.
pub struct Tokenizer {
    pub query: String,
}

impl Tokenizer {
    /// Scans the whole query and returns its token sequence, whitespace
    /// filtered out; fails with `TokenizerError` naming the first
    /// unrecognized character, and returns no partial sequence.
    pub fn tokenize(&mut self) -> (r: Result<Vec<Token>, ParserError>)
        ensures
            final(self).query@ == old(self).query@,
            match spec_tokenize(old(self).query@) {
                Ok(ts) => r matches Ok(v) && tokens_view(v@) == ts,
                Err(c) => r matches Err(e) && e matches ParserError::TokenizerError(m)
                    && m@ == unhandled_char_message(c),
            },
    {
        let ghost q = self.query@;
        let n = self.query.as_str().unicode_len();
        let mut raw: Vec<Token> = Vec::new();
        let mut pos: usize = 0;
        while pos < n
            invariant
                self.query@ == q,
                n == q.len(),
                pos <= n,
                spec_tokenize_from(q, 0) == match spec_tokenize_from(q, pos as int) {
                    Err(c) => Err::<Seq<SpecToken>, char>(c),
                    Ok(rest) => Ok(tokens_view(raw@) + rest),
                },
            decreases n - pos,
        {
            match self.next_token(pos) {
                Err(e) => {
                    return Err(e);
                },
                Ok(None) => {
                    return vstd::pervasive::unreached();
                },
                Ok(Some((t, j))) => {
                    proof {
                        assert(spec_tokenize_from(q, pos as int) matches Ok(rest)
                            ==> spec_tokenize_from(q, j as int) matches Ok(rest2)
                                && rest == seq![t@] + rest2);
                        assert(tokens_view(raw@.push(t)) =~= tokens_view(raw@) + seq![t@]);
                        if spec_tokenize_from(q, j as int) is Ok {
                            let rest2 = spec_tokenize_from(q, j as int)->Ok_0;
                            assert(tokens_view(raw@) + (seq![t@] + rest2)
                                =~= (tokens_view(raw@) + seq![t@]) + rest2);
                        }
                    }
                    raw.push(t);
                    pos = j;
                },
            }
        }
        proof {
            assert(spec_tokenize_from(q, pos as int) == Ok::<Seq<SpecToken>, char>(Seq::empty()));
            assert(tokens_view(raw@) + Seq::<SpecToken>::empty() =~= tokens_view(raw@));
        }
        let mut out: Vec<Token> = Vec::new();
        let mut k: usize = 0;
        while k < raw.len()
            invariant
                k <= raw.len(),
                tokens_view(out@) == tokens_view(raw@.subrange(0, k as int)).filter(
                    not_whitespace_pred(),
                ),
            decreases raw.len() - k,
        {
            let t = raw[k].clone();
            proof {
                assert(tokens_view(raw@.subrange(0, k as int + 1)) =~= tokens_view(
                    raw@.subrange(0, k as int),
                ).push(raw@[k as int]@));
                tokens_view(raw@.subrange(0, k as int)).lemma_filter_push(
                    raw@[k as int]@,
                    not_whitespace_pred(),
                );
                assert(t@ == raw@[k as int]@);
                if not_whitespace_pred()(t@) {
                    assert(tokens_view(out@.push(t)) =~= tokens_view(out@).push(t@));
                }
            }
            match t {
                Token::Whitespace => {},
                other => {
                    out.push(other);
                },
            }
            k = k + 1;
        }
        proof {
            assert(raw@.subrange(0, raw@.len() as int) =~= raw@);
        }
        Ok(out)
    }

    /// One scanning step at character position `pos`: the token found there
    /// and the position just past it, `Ok(None)` at the end of the input, or
    /// a `TokenizerError` naming the unrecognized character at `pos`.
    pub fn next_token(&self, pos: usize) -> (r: Result<Option<(Token, usize)>, ParserError>)
        requires
            pos <= self.query@.len(),
        ensures
            match spec_next_token(self.query@, pos as int) {
                Ok(None) => r matches Ok(None),
                Ok(Some((t, j))) => r matches Ok(Some((tok, p))) && tok@ == t && p as int == j
                    && pos < p && p as int <= self.query@.len(),
                Err(c) => r matches Err(e) && e matches ParserError::TokenizerError(m)
                    && m@ == unhandled_char_message(c),
            },
    {
        let ghost q = self.query@;
        let n = self.query.as_str().unicode_len();
        if pos >= n {
            return Ok(None);
        }
        let c = self.query.as_str().get_char(pos);
        if c == ' ' || c == '\t' || c == '\n' {
            Ok(Some((Token::Whitespace, pos + 1)))
        } else if (c >= 'a' && c <= 'z') || (c >= 'A' && c <= 'Z') || c == '_' || c == '@' {
            let j = self.scan_ident_run(pos + 1);
            let lexeme = self.query.as_str().substring_char(pos, j);
            proof {
                assert(lexeme@ == q.subrange(pos as int, j as int));
            }
            if is_keyword(lexeme) {
                Ok(Some((Token::Keyword(String::from_str(lexeme)), j)))
            } else {
                Ok(Some((Token::Identifier(String::from_str(lexeme)), j)))
            }
        } else if c >= '0' && c <= '9' {
            let j = self.scan_digit_run(pos + 1);
            let lexeme = self.query.as_str().substring_char(pos, j);
            Ok(Some((Token::Number(String::from_str(lexeme)), j)))
        } else if c == '+' {
            Ok(Some((Token::Plus, pos + 1)))
        } else if c == '-' {
            Ok(Some((Token::Minus, pos + 1)))
        } else if c == '*' {
            Ok(Some((Token::Mult, pos + 1)))
        } else if c == '/' {
            Ok(Some((Token::Div, pos + 1)))
        } else if c == '=' {
            Ok(Some((Token::Eq, pos + 1)))
        } else if c == '<' {
            if pos + 1 < n {
                let c2 = self.query.as_str().get_char(pos + 1);
                if c2 == '=' {
                    Ok(Some((Token::LtEq, pos + 2)))
                } else if c2 == '>' {
                    Ok(Some((Token::Neq, pos + 2)))
                } else {
                    Ok(Some((Token::Lt, pos + 1)))
                }
            } else {
                Ok(Some((Token::Lt, pos + 1)))
            }
        } else if c == '>' {
            if pos + 1 < n {
                let c2 = self.query.as_str().get_char(pos + 1);
                if c2 == '=' {
                    Ok(Some((Token::GtEq, pos + 2)))
                } else {
                    Ok(Some((Token::Gt, pos + 1)))
                }
            } else {
                Ok(Some((Token::Gt, pos + 1)))
            }
        } else {
            let mut m = String::from_str("unhandled char '");
            m.append(self.query.as_str().substring_char(pos, pos + 1));
            m.append("' in tokenizer");
            proof {
                assert(q.subrange(pos as int, pos as int + 1) =~= seq![c]);
                assert(m@ == "unhandled char '"@ + seq![c] + "' in tokenizer"@);
            }
            Err(ParserError::TokenizerError(m))
        }
    }

    /// The end of the identifier-continuation run starting at `start`.
    fn scan_ident_run(&self, start: usize) -> (j: usize)
        requires
            start <= self.query@.len(),
        ensures
            start <= j <= self.query@.len(),
            j as int == run_end(self.query@, start as int, ident_cont_pred()),
    {
        let ghost q = self.query@;
        let n = self.query.as_str().unicode_len();
        let mut j = start;
        while j < n
            invariant
                start <= j <= n,
                n == q.len(),
                self.query@ == q,
                run_end(q, start as int, ident_cont_pred()) == run_end(
                    q,
                    j as int,
                    ident_cont_pred(),
                ),
            decreases n - j,
        {
            let ch = self.query.as_str().get_char(j);
            if !((ch >= 'a' && ch <= 'z') || (ch >= 'A' && ch <= 'Z') || (ch >= '0' && ch <= '9')
                || ch == '_') {
                return j;
            }
            j = j + 1;
        }
        j
    }

    /// The end of the digit run starting at `start`.
    fn scan_digit_run(&self, start: usize) -> (j: usize)
        requires
            start <= self.query@.len(),
        ensures
            start <= j <= self.query@.len(),
            j as int == run_end(self.query@, start as int, digit_pred()),
    {
        let ghost q = self.query@;
        let n = self.query.as_str().unicode_len();
        let mut j = start;
        while j < n
            invariant
                start <= j <= n,
                n == q.len(),
                self.query@ == q,
                run_end(q, start as int, digit_pred()) == run_end(q, j as int, digit_pred()),
            decreases n - j,
        {
            let ch = self.query.as_str().get_char(j);
            if !(ch >= '0' && ch <= '9') {
                return j;
            }
            j = j + 1;
        }
        j
    }
}

} // verus!

//! Tokens of the rule language and the tokenizer.
use crate::decimal::{decimal_from_str_exact, from_str_exact, Dec};
use crate::domain::{AppError, ErrorKind};
use crate::text::{
    char_is_alphabetic, char_is_alphanumeric, char_is_whitespace, char_str, chars_of, is_alphabetic,
    is_alphanumeric, is_digit, is_whitespace, string_of,
};
use vstd::prelude::*;

verus! {

/// A token of the rule language.
#[derive(Clone, Debug)]
pub enum Tok {
    Num(Dec),
    Ident(String),
    LParen,
    RParen,
    Comma,
    Lt,
    Le,
    Gt,
    Ge,
    Eq,
    Ne,
    And,
    Or,
    Not,
    Plus,
    Minus,
    Star,
    Slash,
}

/// A token as a mathematical value: identifiers by their characters.
pub enum TokV {
    Num(Dec),
    Ident(Seq<char>),
    LParen,
    RParen,
    Comma,
    Lt,
    Le,
    Gt,
    Ge,
    Eq,
    Ne,
    And,
    Or,
    Not,
    Plus,
    Minus,
    Star,
    Slash,
}

impl Tok {
    pub open spec fn view(&self) -> TokV {
        match self {
            Tok::Num(d) => TokV::Num(*d),
            Tok::Ident(s) => TokV::Ident(s@),
            Tok::LParen => TokV::LParen,
            Tok::RParen => TokV::RParen,
            Tok::Comma => TokV::Comma,
            Tok::Lt => TokV::Lt,
            Tok::Le => TokV::Le,
            Tok::Gt => TokV::Gt,
            Tok::Ge => TokV::Ge,
            Tok::Eq => TokV::Eq,
            Tok::Ne => TokV::Ne,
            Tok::And => TokV::And,
            Tok::Or => TokV::Or,
            Tok::Not => TokV::Not,
            Tok::Plus => TokV::Plus,
            Tok::Minus => TokV::Minus,
            Tok::Star => TokV::Star,
            Tok::Slash => TokV::Slash,
        }
    }
}

/// The tokens of a sequence, as values.
pub open spec fn toks_view(t: Seq<Tok>) -> Seq<TokV> {
    t.map_values(|x: Tok| x.view())
}

/// Every number in the tokens is a valid decimal.
pub open spec fn toks_wf(t: Seq<TokV>) -> bool {
    forall|i: int| 0 <= i < t.len() ==> (#[trigger] t[i] matches TokV::Num(d) ==> d.wf())
}

/// A character that may continue an identifier.
pub open spec fn word_char(c: char) -> bool {
    char_is_alphanumeric(c) || c == '_' || c == '.'
}

/// A character that may continue a number.
pub open spec fn number_char(c: char) -> bool {
    is_digit(c) || c == '.'
}

/// The end of the run of identifier characters that starts at `i`.
pub open spec fn word_end(cs: Seq<char>, i: int) -> int
    decreases cs.len() - i,
{
    if 0 <= i < cs.len() && word_char(cs[i]) {
        word_end(cs, i + 1)
    } else {
        i
    }
}

/// The end of the run of number characters that starts at `i`.
pub open spec fn number_end(cs: Seq<char>, i: int) -> int
    decreases cs.len() - i,
{
    if 0 <= i < cs.len() && number_char(cs[i]) {
        number_end(cs, i + 1)
    } else {
        i
    }
}

pub proof fn lemma_word_end(cs: Seq<char>, i: int)
    requires
        0 <= i <= cs.len(),
    ensures
        i <= word_end(cs, i) <= cs.len(),
        forall|k: int| i <= k < word_end(cs, i) ==> word_char(#[trigger] cs[k]),
        word_end(cs, i) < cs.len() ==> !word_char(cs[word_end(cs, i)]),
    decreases cs.len() - i,
{
    if i < cs.len() && word_char(cs[i]) {
        lemma_word_end(cs, i + 1);
    }
}

pub proof fn lemma_number_end(cs: Seq<char>, i: int)
    requires
        0 <= i <= cs.len(),
    ensures
        i <= number_end(cs, i) <= cs.len(),
        forall|k: int| i <= k < number_end(cs, i) ==> number_char(#[trigger] cs[k]),
        number_end(cs, i) < cs.len() ==> !number_char(cs[number_end(cs, i)]),
    decreases cs.len() - i,
{
    if i < cs.len() && number_char(cs[i]) {
        lemma_number_end(cs, i + 1);
    }
}

/// An error as kind and message.
pub type ErrV = (ErrorKind, Seq<char>);

/// The token a word stands for: a keyword or an identifier.
pub open spec fn word_token(w: Seq<char>) -> TokV {
    if w == "and"@ || w == "AND"@ {
        TokV::And
    } else if w == "or"@ || w == "OR"@ {
        TokV::Or
    } else if w == "not"@ || w == "NOT"@ {
        TokV::Not
    } else {
        TokV::Ident(w)
    }
}

/// Put `t` before the tokens of a result.
pub open spec fn cons_tok(t: TokV, r: Result<Seq<TokV>, ErrV>) -> Result<Seq<TokV>, ErrV> {
    match r {
        Ok(rest) => Ok(seq![t] + rest),
        Err(e) => Err(e),
    }
}

/// Put `p` before the tokens of a result.
pub open spec fn prefix_toks(p: Seq<TokV>, r: Result<Seq<TokV>, ErrV>) -> Result<
    Seq<TokV>,
    ErrV,
> {
    match r {
        Ok(rest) => Ok(p + rest),
        Err(e) => Err(e),
    }
}

/// The tokens of `cs` from position `i` on, or the first error.
pub open spec fn lex_from(cs: Seq<char>, i: int) -> Result<Seq<TokV>, ErrV>
    decreases cs.len() - i, 1int,
{
    if i < 0 || i >= cs.len() {
        Ok(Seq::empty())
    } else {
        let c = cs[i];
        let next_is_eq = i + 1 < cs.len() && cs[i + 1] == '=';
        if char_is_whitespace(c) {
            lex_from(cs, i + 1)
        } else if c == '(' {
            cons_tok(TokV::LParen, lex_from(cs, i + 1))
        } else if c == ')' {
            cons_tok(TokV::RParen, lex_from(cs, i + 1))
        } else if c == ',' {
            cons_tok(TokV::Comma, lex_from(cs, i + 1))
        } else if c == '<' {
            if next_is_eq {
                cons_tok(TokV::Le, lex_from(cs, i + 2))
            } else {
                cons_tok(TokV::Lt, lex_from(cs, i + 1))
            }
        } else if c == '>' {
            if next_is_eq {
                cons_tok(TokV::Ge, lex_from(cs, i + 2))
            } else {
                cons_tok(TokV::Gt, lex_from(cs, i + 1))
            }
        } else if c == '=' {
            if next_is_eq {
                cons_tok(TokV::Eq, lex_from(cs, i + 2))
            } else {
                Err((ErrorKind::BadRequest, "expected '=='"@))
            }
        } else if c == '!' {
            if next_is_eq {
                cons_tok(TokV::Ne, lex_from(cs, i + 2))
            } else {
                Err((ErrorKind::BadRequest, "expected '!='"@))
            }
        } else if c == '+' {
            cons_tok(TokV::Plus, lex_from(cs, i + 1))
        } else if c == '-' {
            cons_tok(TokV::Minus, lex_from(cs, i + 1))
        } else if c == '*' {
            cons_tok(TokV::Star, lex_from(cs, i + 1))
        } else if c == '/' {
            cons_tok(TokV::Slash, lex_from(cs, i + 1))
        } else if char_is_alphabetic(c) || c == '_' {
            lex_word(cs, i)
        } else if is_digit(c) || c == '.' {
            lex_number(cs, i)
        } else {
            Err((ErrorKind::BadRequest, "unexpected char '"@ + seq![c] + "'"@))
        }
    }
}

/// An identifier or keyword starting at `i`, then the rest.
pub open spec fn lex_word(cs: Seq<char>, i: int) -> Result<Seq<TokV>, ErrV>
    decreases cs.len() - i, 0int,
{
    if i < 0 || i >= cs.len() {
        Ok(Seq::empty())
    } else {
        let j = word_end(cs, i + 1);
        if j <= i || j > cs.len() {
            Ok(Seq::empty())
        } else {
            cons_tok(word_token(cs.subrange(i, j)), lex_from(cs, j))
        }
    }
}

/// A number starting at `i`, then the rest.
pub open spec fn lex_number(cs: Seq<char>, i: int) -> Result<Seq<TokV>, ErrV>
    decreases cs.len() - i, 0int,
{
    if i < 0 || i >= cs.len() {
        Ok(Seq::empty())
    } else {
        let j = number_end(cs, i + 1);
        let text = cs.subrange(i, j);
        if j <= i || j > cs.len() {
            Ok(Seq::empty())
        } else {
            match decimal_from_str_exact(text) {
                Ok(d) => cons_tok(TokV::Num(d), lex_from(cs, j)),
                Err(m) => Err((ErrorKind::BadRequest, "bad number "@ + text + ": "@ + m)),
            }
        }
    }
}

/// The tokens of a rule expression, or the error the tokenizer reports.
pub open spec fn spec_tokenize(s: Seq<char>) -> Result<Seq<TokV>, ErrV> {
    lex_from(s, 0)
}


proof fn lemma_prefix_cons(p: Seq<TokV>, t: TokV, r: Result<Seq<TokV>, ErrV>)
    ensures
        prefix_toks(p, cons_tok(t, r)) == prefix_toks(p.push(t), r),
{
    if let Ok(rest) = r {
        assert(p + (seq![t] + rest) =~= p.push(t) + rest);
    }
}

proof fn lemma_view_push(t: Seq<Tok>, x: Tok)
    ensures
        toks_view(t.push(x)) == toks_view(t).push(x.view()),
{
    assert(toks_view(t.push(x)) =~= toks_view(t).push(x.view()));
}

proof fn lemma_wf_push(t: Seq<TokV>, x: TokV)
    requires
        toks_wf(t),
        x matches TokV::Num(d) ==> d.wf(),
    ensures
        toks_wf(t.push(x)),
{
    assert forall|i: int| 0 <= i < t.push(x).len() implies (#[trigger] t.push(x)[i] matches TokV::Num(
        d,
    ) ==> d.wf()) by {
        if i < t.len() {
            assert(t.push(x)[i] == t[i]);
        }
    }
}

/// Push a token, keeping the tokenizer's loop facts.
fn push_tok(toks: &mut Vec<Tok>, t: Tok, Ghost(cs): Ghost<Seq<char>>, Ghost(rest): Ghost<Result<Seq<TokV>, ErrV>>)
    requires
        lex_from(cs, 0) == prefix_toks(toks_view(old(toks)@), cons_tok(t.view(), rest)),
        toks_wf(toks_view(old(toks)@)),
        t matches Tok::Num(d) ==> d.wf(),
    ensures
        final(toks)@ == old(toks)@.push(t),
        lex_from(cs, 0) == prefix_toks(toks_view(final(toks)@), rest),
        toks_wf(toks_view(final(toks)@)),
{
    proof {
        lemma_prefix_cons(toks_view(toks@), t.view(), rest);
        lemma_view_push(toks@, t);
        lemma_wf_push(toks_view(toks@), t.view());
    }
    toks.push(t);
}

/// The identifier or keyword token for a word.
fn word_tok(w: String) -> (t: Tok)
    ensures
        t.view() == word_token(w@),
{
    if crate::text::str_eq(w.as_str(), "and") || crate::text::str_eq(w.as_str(), "AND") {
        Tok::And
    } else if crate::text::str_eq(w.as_str(), "or") || crate::text::str_eq(w.as_str(), "OR") {
        Tok::Or
    } else if crate::text::str_eq(w.as_str(), "not") || crate::text::str_eq(w.as_str(), "NOT") {
        Tok::Not
    } else {
        Tok::Ident(w)
    }
}

/// Split a rule expression into tokens.
pub fn tokenize(s: &str) -> (r: Result<Vec<Tok>, AppError>)
    ensures
        match r {
            Ok(t) => spec_tokenize(s@) == Ok::<Seq<TokV>, ErrV>(toks_view(t@)) && toks_wf(
                toks_view(t@),
            ),
            Err(e) => spec_tokenize(s@) == Err::<Seq<TokV>, ErrV>(e.view_err()),
        },
{
    let mut toks: Vec<Tok> = Vec::new();
    let bytes = chars_of(s);
    let ghost cs = s@;
    let n = bytes.len();
    let mut i: usize = 0;
    proof {
        assert(toks_view(toks@) =~= Seq::<TokV>::empty());
        assert(prefix_toks(Seq::<TokV>::empty(), lex_from(cs, 0)) == lex_from(cs, 0)) by {
            if let Ok(r) = lex_from(cs, 0) {
                assert(Seq::<TokV>::empty() + r =~= r);
            }
        }
    }
    while i < n
        invariant
            cs == s@,
            bytes@ == cs,
            n == cs.len(),
            i <= n,
            lex_from(cs, 0) == prefix_toks(toks_view(toks@), lex_from(cs, i as int)),
            toks_wf(toks_view(toks@)),
        decreases n - i,
    {
        let c = bytes[i];
        let next_is_eq = i + 1 < n && bytes[i + 1] == '=';
        assert(next_is_eq == (i + 1 < cs.len() && cs[i + 1] == '='));
        if is_whitespace(c) {
            i += 1;
        } else if c == '(' {
            push_tok(&mut toks, Tok::LParen, Ghost(cs), Ghost(lex_from(cs, i + 1)));
            i += 1;
        } else if c == ')' {
            push_tok(&mut toks, Tok::RParen, Ghost(cs), Ghost(lex_from(cs, i + 1)));
            i += 1;
        } else if c == ',' {
            push_tok(&mut toks, Tok::Comma, Ghost(cs), Ghost(lex_from(cs, i + 1)));
            i += 1;
        } else if c == '<' {
            if next_is_eq {
                push_tok(&mut toks, Tok::Le, Ghost(cs), Ghost(lex_from(cs, i + 2)));
                i += 2;
            } else {
                push_tok(&mut toks, Tok::Lt, Ghost(cs), Ghost(lex_from(cs, i + 1)));
                i += 1;
            }
        } else if c == '>' {
            if next_is_eq {
                push_tok(&mut toks, Tok::Ge, Ghost(cs), Ghost(lex_from(cs, i + 2)));
                i += 2;
            } else {
                push_tok(&mut toks, Tok::Gt, Ghost(cs), Ghost(lex_from(cs, i + 1)));
                i += 1;
            }
        } else if c == '=' {
            if next_is_eq {
                push_tok(&mut toks, Tok::Eq, Ghost(cs), Ghost(lex_from(cs, i + 2)));
                i += 2;
            } else {
                proof {
                    assert(lex_from(cs, i as int) == Err::<Seq<TokV>, ErrV>((ErrorKind::BadRequest, "expected '=='"@)));
                }
                return Err(AppError::BadRequest(String::from_str("expected '=='")));
            }
        } else if c == '!' {
            if next_is_eq {
                push_tok(&mut toks, Tok::Ne, Ghost(cs), Ghost(lex_from(cs, i + 2)));
                i += 2;
            } else {
                proof {
                    assert(lex_from(cs, i as int) == Err::<Seq<TokV>, ErrV>((ErrorKind::BadRequest, "expected '!='"@)));
                }
                return Err(AppError::BadRequest(String::from_str("expected '!='")));
            }
        } else if c == '+' {
            push_tok(&mut toks, Tok::Plus, Ghost(cs), Ghost(lex_from(cs, i + 1)));
            i += 1;
        } else if c == '-' {
            push_tok(&mut toks, Tok::Minus, Ghost(cs), Ghost(lex_from(cs, i + 1)));
            i += 1;
        } else if c == '*' {
            push_tok(&mut toks, Tok::Star, Ghost(cs), Ghost(lex_from(cs, i + 1)));
            i += 1;
        } else if c == '/' {
            push_tok(&mut toks, Tok::Slash, Ghost(cs), Ghost(lex_from(cs, i + 1)));
            i += 1;
        } else if is_alphabetic(c) || c == '_' {
            let start = i;
            let mut word: Vec<char> = Vec::new();
            word.push(c);
            i += 1;
            proof {
                lemma_word_end(cs, i as int);
            }
            loop
                invariant
                    bytes@ == cs,
                    n == cs.len(),
                    start < i <= n,
                    word_end(cs, start + 1) == word_end(cs, i as int),
                    word@ == cs.subrange(start as int, i as int),
                ensures
                    start < i <= n,
                    word_end(cs, start + 1) == word_end(cs, i as int),
                    word@ == cs.subrange(start as int, i as int),
                    i >= n || !word_char(cs[i as int]),
                decreases n - i,
            {
                if i >= n {
                    break;
                }
                let d = bytes[i];
                if !(is_alphanumeric(d) || d == '_' || d == '.') {
                    break;
                }
                word.push(d);
                assert(cs.subrange(start as int, i + 1) =~= cs.subrange(start as int, i as int).push(d));
                i += 1;
            }
            proof {
                lemma_word_end(cs, i as int);
                lemma_word_end(cs, start + 1);
                assert(word_end(cs, i as int) == i);
                assert(lex_from(cs, start as int) == lex_word(cs, start as int));
            }
            let w = string_of(word.as_slice());
            let t = word_tok(w);
            push_tok(&mut toks, t, Ghost(cs), Ghost(lex_from(cs, i as int)));
        } else if ('0' <= c && c <= '9') || c == '.' {
            let start = i;
            let mut num: Vec<char> = Vec::new();
            num.push(c);
            i += 1;
            loop
                invariant
                    bytes@ == cs,
                    n == cs.len(),
                    start < i <= n,
                    number_end(cs, start + 1) == number_end(cs, i as int),
                    num@ == cs.subrange(start as int, i as int),
                ensures
                    start < i <= n,
                    number_end(cs, start + 1) == number_end(cs, i as int),
                    num@ == cs.subrange(start as int, i as int),
                    i >= n || !number_char(cs[i as int]),
                decreases n - i,
            {
                if i >= n {
                    break;
                }
                let d = bytes[i];
                if !(('0' <= d && d <= '9') || d == '.') {
                    break;
                }
                num.push(d);
                assert(cs.subrange(start as int, i + 1) =~= cs.subrange(start as int, i as int).push(d));
                i += 1;
            }
            proof {
                lemma_number_end(cs, i as int);
                lemma_number_end(cs, start + 1);
                assert(number_end(cs, i as int) == i);
                assert(lex_from(cs, start as int) == lex_number(cs, start as int));
            }
            let text = string_of(num.as_slice());
            match from_str_exact(text.as_str()) {
                Ok(d) => {
                    push_tok(&mut toks, Tok::Num(d), Ghost(cs), Ghost(lex_from(cs, i as int)));
                },
                Err(m) => {
                    let mut msg = String::from_str("bad number ");
                    msg.append(text.as_str());
                    msg.append(": ");
                    msg.append(m.as_str());
                    return Err(AppError::BadRequest(msg));
                },
            }
        } else {
            let mut msg = String::from_str("unexpected char '");
            msg.append(char_str(c).as_str());
            msg.append("'");
            return Err(AppError::BadRequest(msg));
        }
    }
    proof {
        assert(toks_view(toks@) + Seq::<TokV>::empty() =~= toks_view(toks@));
    }
    Ok(toks)
}

} // verus!

//! A flat token model: identifiers, punctuation, literals, and delimiters.
//! Group structure is carried by matching open/close tokens, so token
//! sequences are plain lists and matching works by depth counting.

use vstd::prelude::*;

verus! {

/// A delimiter kind for grouped tokens.
#[derive(Clone, Copy, Debug, PartialEq, Eq, Structural)]
pub enum Delim {
    Paren,
    Bracket,
    Brace,
}

/// One token of source text.
#[derive(Clone, Debug, PartialEq)]
pub enum Token {
    /// An identifier, keyword, or lifetime name.
    Ident(String),
    /// A single punctuation character.
    Punct(char),
    /// A string literal, stored by its value.
    Str(String),
    /// Any other literal, stored by its source text.
    Literal(String),
    /// An opening delimiter.
    Open(Delim),
    /// A closing delimiter.
    Close(Delim),
}

pub ghost enum TokenV {
    Ident(Seq<char>),
    Punct(char),
    Str(Seq<char>),
    Literal(Seq<char>),
    Open(Delim),
    Close(Delim),
}

impl View for Token {
    type V = TokenV;

    open spec fn view(&self) -> TokenV {
        match self {
            Token::Ident(s) => TokenV::Ident(s@),
            Token::Punct(c) => TokenV::Punct(*c),
            Token::Str(s) => TokenV::Str(s@),
            Token::Literal(s) => TokenV::Literal(s@),
            Token::Open(d) => TokenV::Open(*d),
            Token::Close(d) => TokenV::Close(*d),
        }
    }
}

/// The views of a token list.
pub open spec fn toks_view(s: Seq<Token>) -> Seq<TokenV> {
    s.map_values(|t: Token| t@)
}

/// A token sequence.
#[derive(Clone, Debug, PartialEq)]
pub struct Tokens {
    pub toks: Vec<Token>,
}

impl View for Tokens {
    type V = Seq<TokenV>;

    open spec fn view(&self) -> Seq<TokenV> {
        toks_view(self.toks@)
    }
}

pub fn token_eq(a: &Token, b: &Token) -> (r: bool)
    ensures
        r == (a@ == b@),
{
    match (a, b) {
        (Token::Ident(x), Token::Ident(y)) => *x == *y,
        (Token::Punct(x), Token::Punct(y)) => *x == *y,
        (Token::Str(x), Token::Str(y)) => *x == *y,
        (Token::Literal(x), Token::Literal(y)) => *x == *y,
        (Token::Open(x), Token::Open(y)) => *x == *y,
        (Token::Close(x), Token::Close(y)) => *x == *y,
        _ => false,
    }
}

pub fn clone_token(t: &Token) -> (r: Token)
    ensures
        r@ == t@,
{
    match t {
        Token::Ident(s) => Token::Ident(s.clone()),
        Token::Punct(c) => Token::Punct(*c),
        Token::Str(s) => Token::Str(s.clone()),
        Token::Literal(s) => Token::Literal(s.clone()),
        Token::Open(d) => Token::Open(*d),
        Token::Close(d) => Token::Close(*d),
    }
}

pub fn clone_tokens(ts: &Vec<Token>) -> (r: Vec<Token>)
    ensures
        toks_view(r@) == toks_view(ts@),
{
    let mut r: Vec<Token> = Vec::new();
    let mut i: usize = 0;
    while i < ts.len()
        invariant
            i <= ts.len(),
            r@.len() == i,
            forall|j: int| 0 <= j < i ==> r@[j]@ == ts@[j]@,
        decreases ts.len() - i,
    {
        r.push(clone_token(&ts[i]));
        i += 1;
    }
    proof {
        assert(toks_view(r@) =~= toks_view(ts@));
    }
    r
}

impl Tokens {
    pub fn new() -> (r: Tokens)
        ensures
            r@ == Seq::<TokenV>::empty(),
    {
        let r = Tokens { toks: Vec::new() };
        proof {
            assert(r@ =~= Seq::<TokenV>::empty());
        }
        r
    }

    pub fn clone_toks(&self) -> (r: Tokens)
        ensures
            r@ == self@,
    {
        Tokens { toks: clone_tokens(&self.toks) }
    }
}

/// The source text of one token, as rendered.
pub open spec fn token_text(t: TokenV) -> Seq<char> {
    match t {
        TokenV::Ident(s) => s,
        TokenV::Punct(c) => seq![c],
        TokenV::Str(s) => seq!['"'] + s + seq!['"'],
        TokenV::Literal(s) => s,
        TokenV::Open(d) => match d {
            Delim::Paren => seq!['('],
            Delim::Bracket => seq!['['],
            Delim::Brace => seq!['{'],
        },
        TokenV::Close(d) => match d {
            Delim::Paren => seq![')'],
            Delim::Bracket => seq![']'],
            Delim::Brace => seq!['}'],
        },
    }
}

/// A token list rendered with single spaces between tokens.
pub open spec fn render_toks(s: Seq<TokenV>) -> Seq<char>
    decreases s.len(),
{
    if s.len() == 0 {
        Seq::empty()
    } else if s.len() == 1 {
        token_text(s[0])
    } else {
        render_toks(s.drop_last()) + seq![' '] + token_text(s.last())
    }
}

fn push_token_text(out: &mut String, t: &Token)
    ensures
        final(out)@ == old(out)@ + token_text(t@),
{
    match t {
        Token::Ident(s) => out.push_str(s.as_str()),
        Token::Punct(c) => out.push(*c),
        Token::Str(s) => {
            out.push('"');
            out.push_str(s.as_str());
            out.push('"');
            proof {
                assert(old(out)@ + token_text(t@) =~= old(out)@.push('"') + s@ + seq!['"']);
                assert(old(out)@.push('"') + s@ + seq!['"'] =~= (old(out)@.push('"') + s@).push(
                    '"',
                ));
                assert(old(out)@.push('"') =~= old(out)@ + seq!['"']);
            }
        },
        Token::Literal(s) => out.push_str(s.as_str()),
        Token::Open(d) => {
            match d {
                Delim::Paren => out.push('('),
                Delim::Bracket => out.push('['),
                Delim::Brace => out.push('{'),
            }
        },
        Token::Close(d) => {
            match d {
                Delim::Paren => out.push(')'),
                Delim::Bracket => out.push(']'),
                Delim::Brace => out.push('}'),
            }
        },
    }
    proof {
        assert(final(out)@ =~= old(out)@ + token_text(t@));
    }
}

impl Tokens {
    /// Render the token sequence with single spaces between tokens.
    pub fn to_text(&self) -> (r: String)
        ensures
            r@ == render_toks(self@),
    {
        let mut out = String::new();
        let n = self.toks.len();
        let mut i: usize = 0;
        while i < n
            invariant
                n == self.toks@.len(),
                i <= n,
                out@ == render_toks(self@.take(i as int)),
        decreases n - i,
        {
            if i > 0 {
                out.push(' ');
            }
            push_token_text(&mut out, &self.toks[i]);
            proof {
                assert(self@.take(i + 1).drop_last() =~= self@.take(i as int));
                assert(self@.take(i + 1).last() == self@[i as int]);
                assert(self@[i as int] == self.toks@[i as int]@);
                if i == 0 {
                    assert(self@.take(1).len() == 1);
                    assert(out@ =~= render_toks(self@.take(1)));
                } else {
                    assert(out@ =~= render_toks(self@.take(i + 1)));
                }
            }
            i += 1;
        }
        proof {
            assert(self@.take(n as int) =~= self@);
        }
        out
    }
}

/// The decimal digit character for `d`.
pub open spec fn spec_digit(d: int) -> char {
    if d == 0 {
        '0'
    } else if d == 1 {
        '1'
    } else if d == 2 {
        '2'
    } else if d == 3 {
        '3'
    } else if d == 4 {
        '4'
    } else if d == 5 {
        '5'
    } else if d == 6 {
        '6'
    } else if d == 7 {
        '7'
    } else if d == 8 {
        '8'
    } else {
        '9'
    }
}

/// The decimal rendering of a nonnegative integer.
pub open spec fn dec_str(n: int) -> Seq<char>
    decreases n,
{
    if n < 10 {
        seq![spec_digit(n)]
    } else {
        dec_str(n / 10).push(spec_digit(n % 10))
    }
}

fn digit_char(d: u64) -> (c: char)
    requires
        d < 10,
    ensures
        c == spec_digit(d as int),
{
    if d == 0 {
        '0'
    } else if d == 1 {
        '1'
    } else if d == 2 {
        '2'
    } else if d == 3 {
        '3'
    } else if d == 4 {
        '4'
    } else if d == 5 {
        '5'
    } else if d == 6 {
        '6'
    } else if d == 7 {
        '7'
    } else if d == 8 {
        '8'
    } else {
        '9'
    }
}

/// The decimal rendering of `x`, used to name tuple fields by index.
pub fn u64_to_string(x: u64) -> (r: String)
    ensures
        r@ == dec_str(x as int),
    decreases x,
{
    if x < 10 {
        let mut s = String::new();
        s.push(digit_char(x));
        proof {
            assert(s@ =~= dec_str(x as int));
        }
        s
    } else {
        let mut s = u64_to_string(x / 10);
        s.push(digit_char(x % 10));
        s
    }
}

} // verus!

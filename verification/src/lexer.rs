//! The tokens of the surface language.
//!
//! A source text is a run of ASCII characters. Blanks separate tokens and
//! mean nothing else. A word is a longest run of letters, digits and `_`:
//! one that starts with a digit is a decimal number, the ten words `let`,
//! `in`, `if`, `then`, `else`, `fn`, `true`, `false`, `iszero` and `pred`
//! are reserved, and any other word is a name. The signs are `(`, `)`, `:`,
//! `=`, `=>` and `->`.

use vstd::prelude::*;
use vstd::string::*;

verus! {

/// Why a source text could not be turned into a term.
#[derive(Debug, Clone, Copy, PartialEq, Eq)]
pub enum LowerError {
    /// A character that no token starts with, or one outside ASCII.
    UnexpectedCharacter,
    /// A word that starts with a digit and is not made of digits.
    MalformedNumber,
    /// A number that does not fit in 64 bits.
    NumberTooLarge,
    /// A token stands where the grammar asks for another one.
    UnexpectedToken,
    /// The text ends where the grammar asks for a token.
    UnexpectedEnd,
    /// A complete expression is followed by more tokens.
    TrailingInput,
    /// A name is used that no enclosing `fn` or `let` binds.
    UnboundVariable,
}

/// A token. `N` is the type of a name: `String` in a running program,
/// `Seq<char>` in a contract.
#[derive(Debug, PartialEq, Eq)]
pub enum Token<N> {
    Let,
    In,
    If,
    Then,
    Else,
    Fn,
    True,
    False,
    IsZero,
    Pred,
    LParen,
    RParen,
    Colon,
    Equals,
    FatArrow,
    Arrow,
    Int(u64),
    Ident(N),
}

impl View for Token<String> {
    type V = Token<Seq<char>>;

    open spec fn view(&self) -> Token<Seq<char>> {
        match self {
            Token::Let => Token::Let,
            Token::In => Token::In,
            Token::If => Token::If,
            Token::Then => Token::Then,
            Token::Else => Token::Else,
            Token::Fn => Token::Fn,
            Token::True => Token::True,
            Token::False => Token::False,
            Token::IsZero => Token::IsZero,
            Token::Pred => Token::Pred,
            Token::LParen => Token::LParen,
            Token::RParen => Token::RParen,
            Token::Colon => Token::Colon,
            Token::Equals => Token::Equals,
            Token::FatArrow => Token::FatArrow,
            Token::Arrow => Token::Arrow,
            Token::Int(n) => Token::Int(*n),
            Token::Ident(name) => Token::Ident(name@),
        }
    }
}

/// The views of a run of tokens.
pub open spec fn token_views(tokens: Seq<Token<String>>) -> Seq<Token<Seq<char>>> {
    tokens.map_values(|t: Token<String>| t@)
}

pub open spec fn is_blank(c: char) -> bool {
    c == ' ' || c == '\t' || c == '\n' || c == '\r'
}

pub open spec fn is_digit(c: char) -> bool {
    '0' <= c <= '9'
}

pub open spec fn is_letter(c: char) -> bool {
    ('a' <= c <= 'z') || ('A' <= c <= 'Z') || c == '_'
}

pub open spec fn is_word_char(c: char) -> bool {
    is_letter(c) || is_digit(c)
}

/// Where the word that holds position `pos` ends: the first position from
/// `pos` on that holds no word character.
pub open spec fn word_end(src: Seq<char>, pos: int) -> int
    decreases src.len() - pos,
{
    if 0 <= pos < src.len() && is_word_char(src[pos]) {
        word_end(src, pos + 1)
    } else {
        pos
    }
}

/// The number that a run of digits writes in base ten.
pub open spec fn decimal(digits: Seq<char>) -> nat
    decreases digits.len(),
{
    if digits.len() == 0 {
        0
    } else {
        decimal(digits.drop_last()) * 10 + (digits.last() as nat - '0' as nat) as nat
    }
}

pub open spec fn all_digits(word: Seq<char>) -> bool {
    forall|i: int| 0 <= i < word.len() ==> is_digit(#[trigger] word[i])
}

/// The token that a reserved word stands for.
pub open spec fn reserved(word: Seq<char>) -> Option<Token<Seq<char>>> {
    if word == "let"@ {
        Some(Token::Let)
    } else if word == "in"@ {
        Some(Token::In)
    } else if word == "if"@ {
        Some(Token::If)
    } else if word == "then"@ {
        Some(Token::Then)
    } else if word == "else"@ {
        Some(Token::Else)
    } else if word == "fn"@ {
        Some(Token::Fn)
    } else if word == "true"@ {
        Some(Token::True)
    } else if word == "false"@ {
        Some(Token::False)
    } else if word == "iszero"@ {
        Some(Token::IsZero)
    } else if word == "pred"@ {
        Some(Token::Pred)
    } else {
        None
    }
}

/// The token that a word stands for.
pub open spec fn word_token(word: Seq<char>) -> Result<Token<Seq<char>>, LowerError> {
    if word.len() > 0 && is_digit(word[0]) {
        if !all_digits(word) {
            Err(LowerError::MalformedNumber)
        } else if decimal(word) > u64::MAX {
            Err(LowerError::NumberTooLarge)
        } else {
            Ok(Token::Int(decimal(word) as u64))
        }
    } else {
        match reserved(word) {
            Some(t) => Ok(t),
            None => Ok(Token::Ident(word)),
        }
    }
}

/// `front` followed by the tokens of `rest`, where there are any.
pub open spec fn followed_by(
    front: Seq<Token<Seq<char>>>,
    rest: Result<Seq<Token<Seq<char>>>, LowerError>,
) -> Result<Seq<Token<Seq<char>>>, LowerError> {
    match rest {
        Ok(more) => Ok(front + more),
        Err(e) => Err(e),
    }
}

/// The tokens of `src` from position `pos` on, or the first thing in the way.
pub open spec fn tokens_from(src: Seq<char>, pos: int) -> Result<
    Seq<Token<Seq<char>>>,
    LowerError,
>
    decreases src.len() - pos,
{
    if pos < 0 || pos >= src.len() {
        Ok(Seq::empty())
    } else {
        let c = src[pos];
        if is_blank(c) {
            tokens_from(src, pos + 1)
        } else if is_word_char(c) {
            let end = word_end(src, pos + 1);
            proof {
                lemma_word_end_bounds(src, pos + 1);
            }
            match word_token(src.subrange(pos, end)) {
                Ok(t) => followed_by(seq![t], tokens_from(src, end)),
                Err(e) => Err(e),
            }
        } else if c == '(' {
            followed_by(seq![Token::LParen], tokens_from(src, pos + 1))
        } else if c == ')' {
            followed_by(seq![Token::RParen], tokens_from(src, pos + 1))
        } else if c == ':' {
            followed_by(seq![Token::Colon], tokens_from(src, pos + 1))
        } else if c == '=' {
            if pos + 1 < src.len() && src[pos + 1] == '>' {
                followed_by(seq![Token::FatArrow], tokens_from(src, pos + 2))
            } else {
                followed_by(seq![Token::Equals], tokens_from(src, pos + 1))
            }
        } else if c == '-' && pos + 1 < src.len() && src[pos + 1] == '>' {
            followed_by(seq![Token::Arrow], tokens_from(src, pos + 2))
        } else {
            Err(LowerError::UnexpectedCharacter)
        }
    }
}

/// The tokens of a source text. A text with a character outside ASCII has
/// none.
pub open spec fn tokens_of(src: Seq<char>) -> Result<Seq<Token<Seq<char>>>, LowerError> {
    if vstd::utf8::is_ascii_chars(src) {
        tokens_from(src, 0)
    } else {
        Err(LowerError::UnexpectedCharacter)
    }
}

/// A word ends at or after the place it is asked from, and inside the text.
pub proof fn lemma_word_end_bounds(src: Seq<char>, pos: int)
    requires
        0 <= pos <= src.len(),
    ensures
        pos <= word_end(src, pos) <= src.len(),
        forall|k: int| pos <= k < word_end(src, pos) ==> is_word_char(#[trigger] src[k]),
        word_end(src, pos) < src.len() ==> !is_word_char(src[word_end(src, pos)]),
    decreases src.len() - pos,
{
    if pos < src.len() && is_word_char(src[pos]) {
        lemma_word_end_bounds(src, pos + 1);
    }
}

/// A longer run of digits writes a number that is at least as large.
pub proof fn lemma_decimal_grows(digits: Seq<char>, shorter: int)
    requires
        0 <= shorter <= digits.len(),
        all_digits(digits),
    ensures
        decimal(digits.take(shorter)) <= decimal(digits),
    decreases digits.len(),
{
    if shorter < digits.len() {
        let front = digits.drop_last();
        assert(all_digits(front)) by {
            assert forall|i: int| 0 <= i < front.len() implies is_digit(#[trigger] front[i]) by {
                assert(front[i] == digits[i]);
            }
        }
        lemma_decimal_grows(front, shorter);
        assert(front.take(shorter) == digits.take(shorter));
        assert(is_digit(digits[digits.len() - 1]));
    } else {
        assert(digits.take(shorter) == digits);
    }
}

fn is_blank_byte(b: u8) -> (r: bool)
    ensures
        r == is_blank(b as char),
{
    b == 32 || b == 9 || b == 10 || b == 13
}

fn is_digit_byte(b: u8) -> (r: bool)
    ensures
        r == is_digit(b as char),
{
    48 <= b && b <= 57
}

fn is_word_byte(b: u8) -> (r: bool)
    ensures
        r == is_word_char(b as char),
{
    (97 <= b && b <= 122) || (65 <= b && b <= 90) || b == 95 || (48 <= b && b <= 57)
}

/// Whether two ASCII texts are the same.
fn same_text(a: &str, b: &str) -> (r: bool)
    requires
        a.is_ascii(),
        b.is_ascii(),
    ensures
        r == (a@ == b@),
{
    broadcast use {is_ascii_spec_bytes, vstd::utf8::is_ascii_chars_nat_bound};

    let x = a.as_bytes();
    let y = b.as_bytes();
    if x.len() != y.len() {
        return false;
    }
    let mut i: usize = 0;
    while i < x.len()
        invariant
            i <= x.len(),
            x.len() == y.len(),
            x.len() == a@.len(),
            y.len() == b@.len(),
            vstd::utf8::is_ascii_chars(a@),
            vstd::utf8::is_ascii_chars(b@),
            forall|k: int| 0 <= k < x.len() ==> x@[k] == a@[k] as u8,
            forall|k: int| 0 <= k < y.len() ==> y@[k] == b@[k] as u8,
            forall|k: int| 0 <= k < i ==> a@[k] == b@[k],
        decreases x.len() - i,
    {
        if x[i] != y[i] {
            assert(a@[i as int] != b@[i as int]);
            return false;
        }
        assert(a@[i as int] as nat == b@[i as int] as nat);
        i += 1;
    }
    assert(a@ =~= b@);
    true
}

/// The token of a word that does not start with a digit.
fn classify(word: &str) -> (r: Token<String>)
    requires
        word.is_ascii(),
        word@.len() > 0,
        !is_digit(word@[0]),
    ensures
        word_token(word@) == Ok::<Token<Seq<char>>, LowerError>(r@),
{
    proof {
        reveal_strlit("let");
        reveal_strlit("in");
        reveal_strlit("if");
        reveal_strlit("then");
        reveal_strlit("else");
        reveal_strlit("fn");
        reveal_strlit("true");
        reveal_strlit("false");
        reveal_strlit("iszero");
        reveal_strlit("pred");
    }
    if same_text(word, "let") {
        Token::Let
    } else if same_text(word, "in") {
        Token::In
    } else if same_text(word, "if") {
        Token::If
    } else if same_text(word, "then") {
        Token::Then
    } else if same_text(word, "else") {
        Token::Else
    } else if same_text(word, "fn") {
        Token::Fn
    } else if same_text(word, "true") {
        Token::True
    } else if same_text(word, "false") {
        Token::False
    } else if same_text(word, "iszero") {
        Token::IsZero
    } else if same_text(word, "pred") {
        Token::Pred
    } else {
        Token::Ident(word.to_owned())
    }
}

/// The number written by the word that `bytes` holds from `start` to `end`.
fn number(bytes: &[u8], start: usize, end: usize, Ghost(word): Ghost<Seq<char>>) -> (r: Result<
    u64,
    LowerError,
>)
    requires
        start < end <= bytes.len(),
        word.len() == end - start,
        vstd::utf8::is_ascii_chars(word),
        forall|k: int| 0 <= k < word.len() ==> bytes@[start + k] == word[k] as u8,
        is_digit(word[0]),
    ensures
        match r {
            Ok(v) => word_token(word) == Ok::<Token<Seq<char>>, LowerError>(Token::Int(v)),
            Err(e) => word_token(word) == Err::<Token<Seq<char>>, LowerError>(e),
        },
{
    broadcast use vstd::utf8::is_ascii_chars_nat_bound;

    let mut i: usize = start;
    while i < end
        invariant
            start <= i <= end <= bytes.len(),
            start < end,
            is_digit(word[0]),
            word.len() == end - start,
            vstd::utf8::is_ascii_chars(word),
            forall|k: int| 0 <= k < word.len() ==> bytes@[start + k] == word[k] as u8,
            forall|k: int| 0 <= k < i - start ==> is_digit(#[trigger] word[k]),
        decreases end - i,
    {
        if !is_digit_byte(bytes[i]) {
            assert(bytes@[i as int] as char == word[i - start]);
            assert(!is_digit(word[i - start]));
            assert(!all_digits(word));
            return Err(LowerError::MalformedNumber);
        }
        i += 1;
    }
    assert(all_digits(word));
    let mut value: u64 = 0;
    let mut j: usize = start;
    while j < end
        invariant
            start <= j <= end <= bytes.len(),
            start < end,
            is_digit(word[0]),
            word.len() == end - start,
            vstd::utf8::is_ascii_chars(word),
            forall|k: int| 0 <= k < word.len() ==> bytes@[start + k] == word[k] as u8,
            all_digits(word),
            value == decimal(word.take(j - start)),
        decreases end - j,
    {
        assert(bytes@[j as int] as char == word[j - start] && is_digit(word[j - start]));
        let d: u64 = (bytes[j] - 48) as u64;
        proof {
            let longer = word.take(j - start + 1);
            assert(longer.drop_last() == word.take(j - start));
            assert(longer.last() == word[j - start]);
            assert(is_digit(word[j - start]));
            assert(decimal(longer) == value * 10 + d);
            lemma_decimal_grows(word, j - start + 1);
        }
        if value > (u64::MAX - d) / 10 {
            return Err(LowerError::NumberTooLarge);
        }
        value = value * 10 + d;
        j += 1;
    }
    assert(word.take(end - start) == word);
    Ok(value)
}

/// Splits a source text into its tokens.
pub fn lex(input: &str) -> (r: Result<Vec<Token<String>>, LowerError>)
    ensures
        match r {
            Ok(ts) => tokens_of(input@) == Ok::<Seq<Token<Seq<char>>>, LowerError>(
                token_views(ts@),
            ),
            Err(e) => tokens_of(input@) == Err::<Seq<Token<Seq<char>>>, LowerError>(e),
        },
{
    broadcast use {is_ascii_spec_bytes, vstd::utf8::is_ascii_chars_nat_bound};

    if !input.is_ascii() {
        return Err(LowerError::UnexpectedCharacter);
    }
    let bytes = input.as_bytes();
    let n = bytes.len();
    let ghost src = input@;
    let mut tokens: Vec<Token<String>> = Vec::new();
    let mut pos: usize = 0;
    assert(token_views(tokens@) == Seq::<Token<Seq<char>>>::empty());
    assert(followed_by(Seq::empty(), tokens_from(src, 0)) == tokens_from(src, 0)) by {
        if let Ok(more) = tokens_from(src, 0) {
            assert(Seq::<Token<Seq<char>>>::empty() + more == more);
        }
    }
    while pos < n
        invariant
            pos <= n,
            n == src.len(),
            src == input@,
            input.is_ascii(),
            vstd::utf8::is_ascii_chars(src),
            bytes@.len() == n,
            forall|k: int| 0 <= k < n ==> bytes@[k] == src[k] as u8,
            tokens_from(src, 0) == followed_by(
                token_views(tokens@),
                tokens_from(src, pos as int),
            ),
        decreases n - pos,
    {
        let b = bytes[pos];
        let ghost front = token_views(tokens@);
        assert(b as char == src[pos as int]);
        if is_blank_byte(b) {
            pos += 1;
        } else if is_word_byte(b) {
            let mut end: usize = pos + 1;
            while end < n && is_word_byte(bytes[end])
                invariant
                    pos < end <= n,
                    n == src.len(),
                    bytes@.len() == n,
                    vstd::utf8::is_ascii_chars(src),
                    forall|k: int| 0 <= k < n ==> bytes@[k] == src[k] as u8,
                    word_end(src, pos + 1) == word_end(src, end as int),
                decreases n - end,
            {
                assert(bytes@[end as int] as char == src[end as int]);
                end += 1;
            }
            proof {
                if end < n {
                    assert(bytes@[end as int] as char == src[end as int]);
                }
                assert(word_end(src, pos + 1) == end);
            }
            let word = input.substring_ascii(pos, end);
            assert(word@ == src.subrange(pos as int, end as int));
            let token = if is_digit_byte(b) {
                match number(bytes, pos, end, Ghost(word@)) {
                    Ok(v) => Token::Int(v),
                    Err(e) => {
                        return Err(e);
                    },
                }
            } else {
                classify(word)
            };
            proof {
                lemma_push_token(front, token@, tokens_from(src, end as int));
                assert(token_views(tokens@.push(token)) == front.push(token@));
            }
            tokens.push(token);
            pos = end;
        } else if b == 40 {
            proof {
                lemma_push_token(front, Token::LParen, tokens_from(src, pos + 1));
                assert(token_views(tokens@.push(Token::LParen)) == front.push(Token::LParen));
            }
            tokens.push(Token::LParen);
            pos += 1;
        } else if b == 41 {
            proof {
                lemma_push_token(front, Token::RParen, tokens_from(src, pos + 1));
                assert(token_views(tokens@.push(Token::RParen)) == front.push(Token::RParen));
            }
            tokens.push(Token::RParen);
            pos += 1;
        } else if b == 58 {
            proof {
                lemma_push_token(front, Token::Colon, tokens_from(src, pos + 1));
                assert(token_views(tokens@.push(Token::Colon)) == front.push(Token::Colon));
            }
            tokens.push(Token::Colon);
            pos += 1;
        } else if b == 61 {
            if pos + 1 < n && bytes[pos + 1] == 62 {
                assert(bytes@[pos + 1] as char == src[pos + 1]);
                proof {
                    lemma_push_token(front, Token::FatArrow, tokens_from(src, pos + 2));
                    assert(token_views(tokens@.push(Token::FatArrow)) == front.push(
                        Token::FatArrow,
                    ));
                }
                tokens.push(Token::FatArrow);
                pos += 2;
            } else {
                proof {
                    if pos + 1 < n {
                        assert(bytes@[pos + 1] as char == src[pos + 1]);
                    }
                    lemma_push_token(front, Token::Equals, tokens_from(src, pos + 1));
                    assert(token_views(tokens@.push(Token::Equals)) == front.push(Token::Equals));
                }
                tokens.push(Token::Equals);
                pos += 1;
            }
        } else if b == 45 && pos + 1 < n && bytes[pos + 1] == 62 {
            assert(bytes@[pos + 1] as char == src[pos + 1]);
            proof {
                lemma_push_token(front, Token::Arrow, tokens_from(src, pos + 2));
                assert(token_views(tokens@.push(Token::Arrow)) == front.push(Token::Arrow));
            }
            tokens.push(Token::Arrow);
            pos += 2;
        } else {
            proof {
                if pos + 1 < n {
                    assert(bytes@[pos + 1] as char == src[pos + 1]);
                }
            }
            return Err(LowerError::UnexpectedCharacter);
        }
    }
    assert(token_views(tokens@) + Seq::<Token<Seq<char>>>::empty() == token_views(tokens@));
    Ok(tokens)
}

/// Putting a token at the end of what came before is the same as putting it
/// in front of what follows.
proof fn lemma_push_token(
    front: Seq<Token<Seq<char>>>,
    token: Token<Seq<char>>,
    rest: Result<Seq<Token<Seq<char>>>, LowerError>,
)
    ensures
        followed_by(front, followed_by(seq![token], rest)) == followed_by(front.push(token), rest),
{
    if let Ok(more) = rest {
        assert(front + (seq![token] + more) == front.push(token) + more);
    }
}

} // verus!

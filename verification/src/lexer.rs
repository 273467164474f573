//! The scanner: from source text to tokens, one call at a time.
//!
//! What the scanner does is stated by `scan`, a function from the unread text
//! to the next token and the text that is left after it; `Lexer::next_token`
//! is proved to compute it.
use crate::text::{
    char_to_string, chars_of, lemma_run_length, lemma_run_length_is_run, run_length,
    spec_is_letter, string_from, CharClass,
};
use crate::decimal::{all_digits, i64_value, int_value, parse_i64};
use crate::token::{Token, TokenView};
use crate::token_type::{keyword_type, lemma_keyword_texts, TokenType};
use vstd::prelude::*;

verus! {

/// A token and the text that follows it.
pub struct Scanned {
    pub token: TokenView,
    pub rest: Seq<char>,
}

/// The token that stands for the end of the input: it has no text.
pub open spec fn eof_token() -> TokenView {
    TokenView { token_type: TokenType::EOF, literal: Seq::empty() }
}

/// The category of an operator or delimiter that is one character long.
pub open spec fn symbol_type(c: char) -> Option<TokenType> {
    if c == '+' {
        Some(TokenType::Plus)
    } else if c == '-' {
        Some(TokenType::Minus)
    } else if c == '*' {
        Some(TokenType::Asterisk)
    } else if c == '/' {
        Some(TokenType::Slash)
    } else if c == '=' {
        Some(TokenType::Assign)
    } else if c == '!' {
        Some(TokenType::Bang)
    } else if c == '<' {
        Some(TokenType::LessThan)
    } else if c == '>' {
        Some(TokenType::GreaterThan)
    } else if c == '(' {
        Some(TokenType::LParen)
    } else if c == ')' {
        Some(TokenType::RParen)
    } else if c == '{' {
        Some(TokenType::LBrace)
    } else if c == '}' {
        Some(TokenType::RBrace)
    } else if c == ',' {
        Some(TokenType::Comma)
    } else if c == ';' {
        Some(TokenType::Semicolon)
    } else {
        None
    }
}

/// The category of a run of letters: that of the reserved word it spells, or
/// `Ident`.
pub open spec fn ident_type(word: Seq<char>) -> TokenType {
    match keyword_type(word) {
        Some(token_type) => token_type,
        None => TokenType::Ident,
    }
}

/// The token made of the first `n` characters of `s`.
pub open spec fn cut(s: Seq<char>, n: int, token_type: TokenType) -> Scanned {
    Scanned { token: TokenView { token_type, literal: s.take(n) }, rest: s.skip(n) }
}

/// The token at the front of `s`, where `s` does not start with whitespace.
pub open spec fn scan_token(s: Seq<char>) -> Scanned {
    if s.len() == 0 {
        Scanned { token: eof_token(), rest: s }
    } else if s[0] == '=' && s.len() > 1 && s[1] == '=' {
        cut(s, 2, TokenType::Equal)
    } else if s[0] == '!' && s.len() > 1 && s[1] == '=' {
        cut(s, 2, TokenType::NotEqual)
    } else if let Some(token_type) = symbol_type(s[0]) {
        cut(s, 1, token_type)
    } else if CharClass::Digit.contains(s[0]) {
        cut(s, run_length(s, CharClass::Digit) as int, TokenType::Int)
    } else if CharClass::Letter.contains(s[0]) {
        let n = run_length(s, CharClass::Letter) as int;
        cut(s, n, ident_type(s.take(n)))
    } else {
        cut(s, 1, TokenType::Illegal)
    }
}

/// The next token of the unread text `s`, after any whitespace in front of
/// it, and the text that is left.
pub open spec fn scan(s: Seq<char>) -> Scanned {
    scan_token(s.skip(run_length(s, CharClass::Whitespace) as int))
}

/// The tokens of `s` in order, up to the end of the input; the `EOF` token
/// itself is not among them.
pub open spec fn tokens(s: Seq<char>) -> Seq<TokenView>
    decreases s.len(),
    via tokens_decreases
{
    let scanned = scan(s);
    if scanned.token.token_type == TokenType::EOF {
        Seq::empty()
    } else {
        seq![scanned.token] + tokens(scanned.rest)
    }
}

#[via_fn]
proof fn tokens_decreases(s: Seq<char>) {
    lemma_scan_consumes(s);
}

/// Scanning takes characters off the front of the text, and at least one of
/// them for every token but `EOF`; the token's text is not empty then.
pub proof fn lemma_scan_consumes(s: Seq<char>)
    ensures
        scan(s).rest.len() <= s.len(),
        scan(s).rest == s.skip(s.len() - scan(s).rest.len()),
        scan(s).token.token_type != TokenType::EOF ==> scan(s).rest.len() < s.len()
            && scan(s).token.literal.len() > 0,
        scan(s).token.token_type == TokenType::EOF ==> scan(s) == (Scanned {
            token: eof_token(),
            rest: Seq::empty(),
        }),
{
    lemma_run_length_is_run(s, CharClass::Whitespace);
    let t = s.skip(run_length(s, CharClass::Whitespace) as int);
    lemma_run_length_is_run(t, CharClass::Digit);
    lemma_run_length_is_run(t, CharClass::Letter);
    lemma_ident_type_is_word(t.take(run_length(t, CharClass::Letter) as int));
    assert(scan(s).rest =~= s.skip(s.len() - scan(s).rest.len()));
    if t.len() == 0 {
        assert(scan(s).rest =~= Seq::empty());
    }
}

/// A run of letters is a reserved word or an identifier, nothing else.
pub proof fn lemma_ident_type_is_word(word: Seq<char>)
    ensures
        ident_type(word).is_keyword(),
{
}

/// The text that is left after `n` tokens have been taken from `s`.
pub open spec fn rest_after(s: Seq<char>, n: nat) -> Seq<char>
    decreases n,
{
    if n == 0 {
        s
    } else {
        rest_after(scan(s).rest, (n - 1) as nat)
    }
}

/// Once the scanner has answered `EOF` it answers `EOF` for ever: however many
/// tokens are taken after the end of the input, the next one is `EOF` again.
pub proof fn lemma_eof_is_final(s: Seq<char>, n: nat)
    requires
        scan(s).token.token_type == TokenType::EOF,
    ensures
        scan(rest_after(s, n)).token == eof_token(),
        rest_after(s, n).len() <= s.len(),
    decreases n,
{
    lemma_scan_consumes(s);
    if n > 0 {
        let rest = scan(s).rest;
        assert(rest.skip(run_length(rest, CharClass::Whitespace) as int).len() == 0);
        lemma_eof_is_final(rest, (n - 1) as nat);
    }
}

/// An `=` or a `!` with an `=` right behind it is read as one token, `Equal`
/// or `NotEqual`, whose text is the two characters. Where the two characters
/// are the whole input, that token is the only one.
pub proof fn lemma_two_character_operator(s: Seq<char>)
    requires
        s.len() >= 2,
        s[0] == '=' || s[0] == '!',
        s[1] == '=',
    ensures
        scan(s) == cut(
            s,
            2,
            if s[0] == '=' {
                TokenType::Equal
            } else {
                TokenType::NotEqual
            },
        ),
        s.len() == 2 ==> tokens(s) == seq![scan(s).token] && scan(s).token.literal == s,
{
    lemma_run_length(s, CharClass::Whitespace, 0);
    assert(s.skip(0) =~= s);
    if s.len() == 2 {
        let rest = scan(s).rest;
        assert(rest.len() == 0);
        assert(rest.skip(run_length(rest, CharClass::Whitespace) as int).len() == 0);
        assert(tokens(rest) =~= Seq::empty());
        assert(tokens(s) =~= seq![scan(s).token]);
        assert(s.take(2) =~= s);
    }
}

/// A name: one letter or more, and no reserved word.
pub open spec fn is_identifier(word: Seq<char>) -> bool {
    &&& word.len() > 0
    &&& forall|i: int| 0 <= i < word.len() ==> CharClass::Letter.contains(#[trigger] word[i])
    &&& keyword_type(word) is None
}

/// A run of letters in front of a text that does not go on with a letter is
/// read as one token, whatever whitespace stands before it: a reserved word
/// or an identifier whose text is the run.
pub proof fn lemma_scan_word(blank: Seq<char>, word: Seq<char>, rest: Seq<char>)
    requires
        forall|i: int| 0 <= i < blank.len() ==> CharClass::Whitespace.contains(#[trigger] blank[i]),
        word.len() > 0,
        forall|i: int| 0 <= i < word.len() ==> CharClass::Letter.contains(#[trigger] word[i]),
        rest.len() > 0 ==> !CharClass::Letter.contains(rest[0]),
    ensures
        scan(blank + word + rest) == (Scanned {
            token: TokenView { token_type: ident_type(word), literal: word },
            rest,
        }),
{
    let s = blank + word + rest;
    assert(s[blank.len() as int] == word[0]);
    assert forall|i: int| 0 <= i < blank.len() implies CharClass::Whitespace.contains(
        #[trigger] s[i],
    ) by {
        assert(s[i] == blank[i]);
    }
    lemma_run_length(s, CharClass::Whitespace, blank.len());
    let t = s.skip(blank.len() as int);
    assert(t =~= word + rest);
    assert forall|i: int| 0 <= i < word.len() implies CharClass::Letter.contains(#[trigger] t[i]) by {
        assert(t[i] == word[i]);
    }
    if rest.len() > 0 {
        assert(t[word.len() as int] == rest[0]);
    }
    lemma_run_length(t, CharClass::Letter, word.len());
    assert(t[0] == word[0]);
    assert(t.take(word.len() as int) =~= word);
    assert(t.skip(word.len() as int) =~= rest);
}

/// An operator or delimiter of one character is read as one token, whatever
/// whitespace stands before it. `=` and `!` are left out where an `=`
/// follows them: the two are then one token.
pub proof fn lemma_scan_symbol(blank: Seq<char>, symbol: char, rest: Seq<char>)
    requires
        forall|i: int| 0 <= i < blank.len() ==> CharClass::Whitespace.contains(#[trigger] blank[i]),
        symbol_type(symbol) is Some,
        (symbol == '=' || symbol == '!') ==> rest.len() == 0 || rest[0] != '=',
    ensures
        scan(blank + seq![symbol] + rest) == (Scanned {
            token: TokenView { token_type: symbol_type(symbol).unwrap(), literal: seq![symbol] },
            rest,
        }),
{
    let s = blank + seq![symbol] + rest;
    assert(s[blank.len() as int] == symbol);
    assert forall|i: int| 0 <= i < blank.len() implies CharClass::Whitespace.contains(
        #[trigger] s[i],
    ) by {
        assert(s[i] == blank[i]);
    }
    lemma_run_length(s, CharClass::Whitespace, blank.len());
    let t = s.skip(blank.len() as int);
    assert(t =~= seq![symbol] + rest);
    assert(t[0] == symbol);
    if rest.len() > 0 {
        assert(t[1] == rest[0]);
    }
    assert(t.take(1) =~= seq![symbol]);
    assert(t.skip(1) =~= rest);
}

/// The text of an `Int` token is one digit or more and nothing else: it
/// writes an integer, which can only be too large for 64 bits.
pub proof fn lemma_integer_token_is_numeric(s: Seq<char>)
    ensures
        scan(s).token.token_type == TokenType::Int ==> {
            &&& scan(s).token.literal.len() > 0
            &&& all_digits(scan(s).token.literal)
            &&& int_value(scan(s).token.literal) is Some
        },
{
    let t = s.skip(run_length(s, CharClass::Whitespace) as int);
    lemma_run_length_is_run(t, CharClass::Digit);
    lemma_ident_type_is_word(t.take(run_length(t, CharClass::Letter) as int));
    if scan(s).token.token_type == TokenType::Int {
        let literal = scan(s).token.literal;
        assert forall|i: int| 0 <= i < literal.len() implies crate::text::is_digit(
            #[trigger] literal[i],
        ) by {
            assert(literal[i] == t[i]);
        }
        assert(literal[0] == t[0]);
    }
}

/// The texts of `tokens`, one after the other.
pub open spec fn literals(tokens: Seq<TokenView>) -> Seq<char>
    decreases tokens.len(),
{
    if tokens.len() == 0 {
        Seq::empty()
    } else {
        tokens[0].literal + literals(tokens.drop_first())
    }
}

/// The characters of `s` that are no whitespace, in order.
pub open spec fn without_whitespace(s: Seq<char>) -> Seq<char>
    decreases s.len(),
{
    if s.len() == 0 {
        Seq::empty()
    } else if CharClass::Whitespace.contains(s[0]) {
        without_whitespace(s.drop_first())
    } else {
        seq![s[0]] + without_whitespace(s.drop_first())
    }
}

pub proof fn lemma_without_whitespace_add(a: Seq<char>, b: Seq<char>)
    ensures
        without_whitespace(a + b) == without_whitespace(a) + without_whitespace(b),
    decreases a.len(),
{
    if a.len() == 0 {
        assert(a + b =~= b);
        assert(without_whitespace(a) + without_whitespace(b) =~= without_whitespace(b));
    } else {
        assert((a + b).drop_first() =~= a.drop_first() + b);
        lemma_without_whitespace_add(a.drop_first(), b);
        assert(without_whitespace(a + b) =~= without_whitespace(a) + without_whitespace(b));
    }
}

/// Taking the whitespace out of a text changes it only where it holds
/// whitespace: a text of whitespace alone is emptied, a text with none stays
/// as it is.
pub proof fn lemma_without_whitespace_uniform(s: Seq<char>)
    ensures
        (forall|i: int| 0 <= i < s.len() ==> CharClass::Whitespace.contains(#[trigger] s[i]))
            ==> without_whitespace(s) == Seq::<char>::empty(),
        (forall|i: int| 0 <= i < s.len() ==> !CharClass::Whitespace.contains(#[trigger] s[i]))
            ==> without_whitespace(s) == s,
    decreases s.len(),
{
    if s.len() > 0 {
        let t = s.drop_first();
        lemma_without_whitespace_uniform(t);
        if forall|i: int| 0 <= i < s.len() ==> CharClass::Whitespace.contains(#[trigger] s[i]) {
            assert forall|i: int| 0 <= i < t.len() implies CharClass::Whitespace.contains(
                #[trigger] t[i],
            ) by {
                assert(t[i] == s[i + 1]);
            }
        }
        if forall|i: int| 0 <= i < s.len() ==> !CharClass::Whitespace.contains(#[trigger] s[i]) {
            assert forall|i: int| 0 <= i < t.len() implies !CharClass::Whitespace.contains(
                #[trigger] t[i],
            ) by {
                assert(t[i] == s[i + 1]);
            }
            assert(seq![s[0]] + t =~= s);
        }
    }
}

/// The text of a token holds no whitespace.
pub proof fn lemma_token_holds_no_whitespace(s: Seq<char>)
    ensures
        forall|i: int|
            0 <= i < scan(s).token.literal.len() ==> !CharClass::Whitespace.contains(
                #[trigger] scan(s).token.literal[i],
            ),
{
    lemma_run_length_is_run(s, CharClass::Whitespace);
    let t = s.skip(run_length(s, CharClass::Whitespace) as int);
    lemma_run_length_is_run(t, CharClass::Digit);
    lemma_run_length_is_run(t, CharClass::Letter);
    let literal = scan(s).token.literal;
    assert forall|i: int| 0 <= i < literal.len() implies !CharClass::Whitespace.contains(
        #[trigger] literal[i],
    ) by {
        assert(literal[i] == t[i]);
    }
}

/// The scanner loses nothing but whitespace: the texts of the tokens of `s`,
/// one after the other, are `s` without its whitespace.
pub proof fn lemma_tokens_keep_the_text(s: Seq<char>)
    ensures
        literals(tokens(s)) == without_whitespace(s),
    decreases s.len(),
{
    lemma_run_length_is_run(s, CharClass::Whitespace);
    lemma_scan_consumes(s);
    lemma_token_holds_no_whitespace(s);
    let n = run_length(s, CharClass::Whitespace) as int;
    let blank = s.take(n);
    let t = s.skip(n);
    let literal = scan(s).token.literal;
    let rest = scan(s).rest;
    assert(s =~= blank + t);
    lemma_without_whitespace_add(blank, t);
    lemma_without_whitespace_uniform(blank);
    assert(without_whitespace(blank) + without_whitespace(t) =~= without_whitespace(t));
    if scan(s).token.token_type == TokenType::EOF {
        assert(t.len() == 0) by {
            lemma_run_length_is_run(t, CharClass::Digit);
            lemma_run_length_is_run(t, CharClass::Letter);
            lemma_ident_type_is_word(t.take(run_length(t, CharClass::Letter) as int));
        }
    } else {
        lemma_run_length_is_run(t, CharClass::Digit);
        lemma_run_length_is_run(t, CharClass::Letter);
        assert(t =~= literal + rest);
        lemma_without_whitespace_add(literal, rest);
        lemma_without_whitespace_uniform(literal);
        lemma_tokens_keep_the_text(rest);
        let all = tokens(s);
        assert(all.drop_first() =~= tokens(rest));
        assert(all[0] == scan(s).token);
    }
}

/// Every `Int` token among `tokens` writes a 64-bit signed integer.
pub open spec fn integers_fit(tokens: Seq<TokenView>) -> bool {
    forall|i: int|
        0 <= i < tokens.len() && (#[trigger] tokens[i]).token_type == TokenType::Int
            ==> i64_value(tokens[i].literal) is Some
}

/// Whether `ch` can stand in an identifier: an ASCII letter or an underscore.
pub fn is_letter(ch: char) -> (b: bool)
    ensures
        b == spec_is_letter(ch),
{
    CharClass::Letter.contains(ch)
}

/// The category of the word `ident`: a reserved word's own, `Ident` for any
/// other text.
pub fn look_up_ident(ident: &str) -> (token_type: TokenType)
    ensures
        token_type == ident_type(ident@),
{
    let word = chars_of(ident);
    let n = word.len();
    proof {
        lemma_keyword_texts();
    }
    if n == 2 && word[0] == 'f' && word[1] == 'n' {
        assert(word@ =~= "fn"@);
        TokenType::Function
    } else if n == 2 && word[0] == 'i' && word[1] == 'f' {
        assert(word@ =~= "if"@);
        TokenType::If
    } else if n == 3 && word[0] == 'l' && word[1] == 'e' && word[2] == 't' {
        assert(word@ =~= "let"@);
        TokenType::Let
    } else if n == 4 && word[0] == 't' && word[1] == 'r' && word[2] == 'u' && word[3] == 'e' {
        assert(word@ =~= "true"@);
        TokenType::True
    } else if n == 4 && word[0] == 'e' && word[1] == 'l' && word[2] == 's' && word[3] == 'e' {
        assert(word@ =~= "else"@);
        TokenType::Else
    } else if n == 5 && word[0] == 'f' && word[1] == 'a' && word[2] == 'l' && word[3] == 's'
        && word[4] == 'e' {
        assert(word@ =~= "false"@);
        TokenType::False
    } else if n == 6 && word[0] == 'r' && word[1] == 'e' && word[2] == 't' && word[3] == 'u'
        && word[4] == 'r' && word[5] == 'n' {
        assert(word@ =~= "return"@);
        TokenType::Return
    } else {
        TokenType::Ident
    }
}

/// The category of a one-character operator or delimiter.
fn symbol(ch: char) -> (token_type: Option<TokenType>)
    ensures
        token_type == symbol_type(ch),
{
    if ch == '+' {
        Some(TokenType::Plus)
    } else if ch == '-' {
        Some(TokenType::Minus)
    } else if ch == '*' {
        Some(TokenType::Asterisk)
    } else if ch == '/' {
        Some(TokenType::Slash)
    } else if ch == '=' {
        Some(TokenType::Assign)
    } else if ch == '!' {
        Some(TokenType::Bang)
    } else if ch == '<' {
        Some(TokenType::LessThan)
    } else if ch == '>' {
        Some(TokenType::GreaterThan)
    } else if ch == '(' {
        Some(TokenType::LParen)
    } else if ch == ')' {
        Some(TokenType::RParen)
    } else if ch == '{' {
        Some(TokenType::LBrace)
    } else if ch == '}' {
        Some(TokenType::RBrace)
    } else if ch == ',' {
        Some(TokenType::Comma)
    } else if ch == ';' {
        Some(TokenType::Semicolon)
    } else {
        None
    }
}

/// The scanner's cursor over the source text.
///
/// `position` is the index of the character under examination, which
/// `examining_char` holds, and `read_position` the index of the next one to
/// read. At the end of the text `position` is the text's length and there is
/// no character under examination.
pub struct Lexer {
    input: Vec<char>,
    position: usize,
    read_position: usize,
    examining_char: Option<char>,
}

impl View for Lexer {
    type V = Seq<char>;

    /// The text that has not been read yet.
    closed spec fn view(&self) -> Seq<char> {
        self.input@.skip(self.position as int)
    }
}

impl Lexer {
    /// The cursor is inside the text or at its end, `read_position` is one
    /// character ahead of `position` until the end is reached, and
    /// `examining_char` is the character at `position`.
    pub closed spec fn wf(&self) -> bool {
        &&& self.position <= self.input@.len()
        &&& self.read_position == if self.position < self.input@.len() {
            self.position + 1
        } else {
            self.input@.len() as int
        }
        &&& self.examining_char == if self.position < self.input@.len() {
            Some(self.input@[self.position as int])
        } else {
            None
        }
    }

    /// A scanner at the start of `input`.
    pub fn new(input: String) -> (lexer: Self)
        ensures
            lexer.wf(),
            lexer@ == input@,
    {
        let mut lexer = Self {
            input: chars_of(input.as_str()),
            position: 0,
            read_position: 0,
            examining_char: None,
        };
        lexer.read_char();
        lexer
    }

    /// The next token of the text, and the cursor moved past it. At the end
    /// of the text the token is `EOF`, on this call and on every later one.
    pub fn next_token(&mut self) -> (token: Token)
        requires
            old(self).wf(),
        ensures
            final(self).wf(),
            token@ == scan(old(self)@).token,
            final(self)@ == scan(old(self)@).rest,
    {
        self.skip_whitespace();
        let ghost s = self@;
        proof {
            lemma_run_length_is_run(s, CharClass::Digit);
            lemma_run_length_is_run(s, CharClass::Letter);
        }
        let token = match self.examining_char {
            None => Token::new(TokenType::EOF, String::new()),
            Some(ch) => {
                if ch == '=' && self.peek_char_is('=') {
                    self.read_char();
                    let mut literal = char_to_string(ch);
                    literal.push('=');
                    assert(literal@ =~= s.take(2));
                    Token::new(TokenType::Equal, literal)
                } else if ch == '!' && self.peek_char_is('=') {
                    self.read_char();
                    let mut literal = char_to_string(ch);
                    literal.push('=');
                    assert(literal@ =~= s.take(2));
                    Token::new(TokenType::NotEqual, literal)
                } else if let Some(token_type) = symbol(ch) {
                    assert(seq![ch] =~= s.take(1));
                    Token::new(token_type, char_to_string(ch))
                } else if CharClass::Digit.contains(ch) {
                    Token::new(TokenType::Int, self.read_number())
                } else if is_letter(ch) {
                    let ident = self.read_identifier();
                    proof {
                        lemma_ident_type_is_word(ident@);
                    }
                    Token::new(look_up_ident(ident.as_str()), ident)
                } else {
                    assert(seq![ch] =~= s.take(1));
                    Token::new(TokenType::Illegal, char_to_string(ch))
                }
            },
        };

        if !(token.token_type.is_keyword() || token.token_type.is_int()) {
            assert(self@.len() > 0 ==> self@.drop_first() =~= scan_token(s).rest);
            self.read_char();
        }
        token
    }

    /// Whether every integer literal in the unread text writes a 64-bit
    /// signed integer. The scanner itself is left where it is.
    pub fn integers_fit(&self) -> (fit: bool)
        requires
            self.wf(),
        ensures
            fit == integers_fit(tokens(self@)),
    {
        let mut lexer = self.clone();
        loop
            invariant
                lexer.wf(),
                integers_fit(tokens(self@)) == integers_fit(tokens(lexer@)),
            decreases lexer@.len(),
        {
            let ghost text = lexer@;
            let token = lexer.next_token();
            proof {
                lemma_scan_consumes(text);
            }
            if token.token_type.is_eof() {
                return true;
            }
            let ghost first = seq![token@];
            assert(tokens(text) == first + tokens(lexer@));
            if token.token_type.is_int() && parse_i64(token.literal.as_str()).is_none() {
                assert(tokens(text)[0] == token@);
                return false;
            }
            proof {
                let all = tokens(text);
                let later = tokens(lexer@);
                if integers_fit(later) {
                    assert forall|i: int|
                        0 <= i < all.len() && (#[trigger] all[i]).token_type
                            == TokenType::Int implies i64_value(all[i].literal) is Some by {
                        if i > 0 {
                            assert(all[i] == later[i - 1]);
                        }
                    }
                } else {
                    let i = choose|i: int|
                        0 <= i < later.len() && (#[trigger] later[i]).token_type == TokenType::Int
                            && !(i64_value(later[i].literal) is Some);
                    assert(all[i + 1] == later[i]);
                }
            }
        }
    }

    /// Moves the cursor to the next character, or to the end of the text.
    fn read_char(&mut self)
        requires
            old(self).position <= old(self).read_position <= old(self).input@.len(),
        ensures
            final(self).wf(),
            final(self).input == old(self).input,
            final(self).position == old(self).read_position,
    {
        if self.read_position < self.input.len() {
            self.examining_char = Some(self.input[self.read_position]);
            self.position = self.read_position;
            self.read_position += 1;
        } else {
            self.examining_char = None;
            self.position = self.input.len();
        }
    }

    /// Whether the character after the one under examination is `ch`.
    fn peek_char_is(&self, ch: char) -> (b: bool)
        requires
            self.wf(),
        ensures
            b == (self@.len() > 1 && self@[1] == ch),
    {
        self.read_position < self.input.len() && self.input[self.read_position] == ch
    }

    /// Whether there is a character under examination and it belongs to
    /// `class`.
    fn examining(&self, class: CharClass) -> (b: bool)
        ensures
            b == match self.examining_char {
                Some(ch) => class.contains(ch),
                None => false,
            },
    {
        match self.examining_char {
            Some(ch) => class.contains(ch),
            None => false,
        }
    }

    /// Moves the cursor past the run of `class` that it stands on.
    fn read_run(&mut self, class: CharClass)
        requires
            old(self).wf(),
        ensures
            final(self).wf(),
            final(self).input == old(self).input,
            final(self).position == old(self).position + run_length(old(self)@, class),
            final(self)@ == old(self)@.skip(run_length(old(self)@, class) as int),
    {
        let ghost start = self.position;
        while self.examining(class)
            invariant
                self.wf(),
                self.input == old(self).input,
                start == old(self).position,
                start <= self.position,
                forall|i: int| start <= i < self.position ==> class.contains(#[trigger] self.input@[i]),
            decreases self.input@.len() - self.position,
        {
            self.read_char();
        }
        proof {
            let s = old(self)@;
            let n = (self.position - start) as nat;
            assert forall|i: int| 0 <= i < n implies class.contains(#[trigger] s[i]) by {
                assert(s[i] == self.input@[start + i]);
            }
            lemma_run_length(s, class, n);
            assert(self@ =~= s.skip(n as int));
        }
    }

    fn skip_whitespace(&mut self)
        requires
            old(self).wf(),
        ensures
            final(self).wf(),
            final(self)@ == old(self)@.skip(run_length(old(self)@, CharClass::Whitespace) as int),
    {
        self.read_run(CharClass::Whitespace);
    }

    /// Reads the run of digits under the cursor and returns its text.
    fn read_number(&mut self) -> (number: String)
        requires
            old(self).wf(),
        ensures
            final(self).wf(),
            number@ == old(self)@.take(run_length(old(self)@, CharClass::Digit) as int),
            final(self)@ == old(self)@.skip(run_length(old(self)@, CharClass::Digit) as int),
    {
        let position = self.position;
        self.read_run(CharClass::Digit);
        let number = string_from(&self.input, position, self.position);
        assert(number@ =~= old(self)@.take(run_length(old(self)@, CharClass::Digit) as int));
        number
    }

    /// Reads the run of letters under the cursor and returns its text.
    fn read_identifier(&mut self) -> (identifier: String)
        requires
            old(self).wf(),
        ensures
            final(self).wf(),
            identifier@ == old(self)@.take(run_length(old(self)@, CharClass::Letter) as int),
            final(self)@ == old(self)@.skip(run_length(old(self)@, CharClass::Letter) as int),
    {
        let position = self.position;
        self.read_run(CharClass::Letter);
        let identifier = string_from(&self.input, position, self.position);
        assert(identifier@ =~= old(self)@.take(run_length(old(self)@, CharClass::Letter) as int));
        identifier
    }
}

impl Clone for Lexer {
    fn clone(&self) -> (lexer: Self)
        ensures
            lexer.wf() == self.wf(),
            lexer@ == self@,
    {
        let input = self.input.clone();
        assert(input@ =~= self.input@);
        Lexer {
            input,
            position: self.position,
            read_position: self.read_position,
            examining_char: self.examining_char,
        }
    }
}

impl Default for Lexer {
    /// A scanner over the empty text.
    fn default() -> (lexer: Self)
        ensures
            lexer.wf(),
            lexer@ == Seq::<char>::empty(),
    {
        Lexer { input: Vec::new(), position: 0, read_position: 0, examining_char: None }
    }
}

} // verus!

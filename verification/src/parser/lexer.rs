//! The lexer: from text to tokens, one token at a time.

use crate::parser::keywords::{lookup_word, Keywords};
use crate::parser::token::{Token, TokenView};
use crate::text::{chars_of, text_of};
use vstd::prelude::*;

verus! {

pub open spec fn is_whitespace(c: char) -> bool {
    c == ' ' || c == '\t' || c == '\n' || c == '\r'
}

pub open spec fn is_newline(c: char) -> bool {
    c == '\n' || c == '\r'
}

/// An ASCII letter or an underscore.
pub open spec fn is_letter(c: char) -> bool {
    ('a' <= c && c <= 'z') || ('A' <= c && c <= 'Z') || c == '_'
}

/// An ASCII letter, an ASCII digit or an underscore.
pub open spec fn is_alphanumeric(c: char) -> bool {
    is_letter(c) || ('0' <= c && c <= '9')
}

/// An ASCII digit or a dot.
pub open spec fn is_digit(c: char) -> bool {
    ('0' <= c && c <= '9') || c == '.'
}

/// The character at index `i` of `s`, and NUL outside of `s`.
pub open spec fn char_at(s: Seq<char>, i: int) -> char {
    if 0 <= i < s.len() {
        s[i]
    } else {
        '\0'
    }
}

/// The kinds of runs of characters that the lexer reads as a whole.
#[derive(Clone, Copy, PartialEq, Eq, Debug)]
pub enum Run {
    /// Whitespace between tokens.
    Blank,
    /// The letters, digits and underscores of a word.
    Word,
    /// The digits and dots of a number.
    Digits,
    /// The inside of a string: anything but a double quote.
    Quoted,
    /// The rest of a line: anything but a line break.
    Remark,
}

/// Whether `c` can stand inside a run of kind `run`.
pub open spec fn in_run(run: Run, c: char) -> bool {
    match run {
        Run::Blank => is_whitespace(c),
        Run::Word => is_alphanumeric(c),
        Run::Digits => is_digit(c),
        Run::Quoted => c != '"',
        Run::Remark => !is_newline(c),
    }
}

/// Where the longest run of kind `run` that starts at `i` ends: the index of
/// the first character from `i` on that is not part of it, or the length of `s`.
pub open spec fn run_end(s: Seq<char>, i: int, run: Run) -> int
    decreases s.len() - i,
{
    if 0 <= i < s.len() && in_run(run, s[i]) {
        run_end(s, i + 1, run)
    } else {
        i
    }
}

/// `run_end` is the one index from `i` on at which the run stops.
pub proof fn lemma_run_end(s: Seq<char>, i: int, j: int, run: Run)
    requires
        0 <= i <= j <= s.len(),
        forall|k: int| i <= k < j ==> in_run(run, #[trigger] s[k]),
        j == s.len() || !in_run(run, s[j]),
    ensures
        run_end(s, i, run) == j,
    decreases j - i,
{
    if i < j {
        assert(in_run(run, s[i]));
        lemma_run_end(s, i + 1, j, run);
    }
}

/// A run ends between its start and the end of the text, holds only
/// characters of its kind, and stops at the first character that is not.
pub proof fn lemma_run_end_bounds(s: Seq<char>, i: int, run: Run)
    requires
        0 <= i <= s.len(),
    ensures
        i <= run_end(s, i, run) <= s.len(),
        forall|k: int| i <= k < run_end(s, i, run) ==> in_run(run, #[trigger] s[k]),
        run_end(s, i, run) == s.len() || !in_run(run, s[run_end(s, i, run)]),
    decreases s.len() - i,
{
    if i < s.len() && in_run(run, s[i]) {
        lemma_run_end_bounds(s, i + 1, run);
    }
}

/// The token that starts at or after `pos`, past any whitespace, and the
/// position just behind it.
///
/// At the end of the text the token is `Eof`. A string runs to the next double
/// quote or to the end of the text, a comment to the next line break or to the
/// end of the text; the closing character is passed over. `+` together with
/// `j`, `o` or `c` is a target tag; any other character that starts no token is
/// `Illegal` and is passed over alone.
pub open spec fn next_token_spec(s: Seq<char>, pos: int) -> (TokenView, int) {
    let i = run_end(s, pos, Run::Blank);
    if !(0 <= i < s.len()) {
        (TokenView::Eof, i)
    } else {
        let c = s[i];
        if c == '=' {
            (TokenView::Equal, i + 1)
        } else if c == '+' {
            let peek = char_at(s, i + 1);
            if peek == 'j' {
                (TokenView::JavaInterface, i + 2)
            } else if peek == 'o' {
                (TokenView::ObjCInterface, i + 2)
            } else if peek == 'c' {
                (TokenView::CppInterface, i + 2)
            } else {
                (TokenView::Illegal, i + 1)
            }
        } else if c == ';' {
            (TokenView::Semicolon, i + 1)
        } else if c == '(' {
            (TokenView::LParen, i + 1)
        } else if c == ')' {
            (TokenView::RParen, i + 1)
        } else if c == ',' {
            (TokenView::Comma, i + 1)
        } else if c == '<' {
            (TokenView::Lt, i + 1)
        } else if c == '>' {
            (TokenView::Gt, i + 1)
        } else if c == '{' {
            (TokenView::LBrace, i + 1)
        } else if c == '}' {
            (TokenView::RBrace, i + 1)
        } else if c == '"' {
            let e = run_end(s, i + 1, Run::Quoted);
            (TokenView::StringToken(s.subrange(i + 1, e)), if e < s.len() { e + 1 } else { e })
        } else if c == ':' {
            (TokenView::Colon, i + 1)
        } else if c == '@' {
            (TokenView::AtSign, i + 1)
        } else if c == '#' {
            let e = run_end(s, i + 1, Run::Remark);
            (TokenView::Comment(s.subrange(i + 1, e)), if e < s.len() { e + 1 } else { e })
        } else if is_letter(c) {
            let e = run_end(s, i, Run::Word);
            (lookup_word(s.subrange(i, e)), e)
        } else if is_digit(c) {
            let e = run_end(s, i, Run::Digits);
            (TokenView::Number(s.subrange(i, e)), e)
        } else {
            (TokenView::Illegal, i + 1)
        }
    }
}

/// Every token but `Eof` takes at least one character, and `Eof` comes only
/// at the end of the text.
pub proof fn lemma_next_token_advances(s: Seq<char>, pos: int)
    requires
        0 <= pos <= s.len(),
    ensures
        pos <= next_token_spec(s, pos).1 <= s.len(),
        next_token_spec(s, pos).0 !is Eof ==> pos < next_token_spec(s, pos).1,
        next_token_spec(s, pos).0 is Eof ==> next_token_spec(s, pos).1 == s.len(),
{
    lemma_run_end_bounds(s, pos, Run::Blank);
    let i = run_end(s, pos, Run::Blank);
    if i < s.len() {
        lemma_run_end_bounds(s, i + 1, Run::Quoted);
        lemma_run_end_bounds(s, i + 1, Run::Remark);
        lemma_run_end_bounds(s, i, Run::Word);
        lemma_run_end_bounds(s, i, Run::Digits);
        lemma_lookup_word_not_eof(s.subrange(i, run_end(s, i, Run::Word)));
        if is_letter(s[i]) {
            assert(in_run(Run::Word, s[i]));
        }
        if is_digit(s[i]) {
            assert(in_run(Run::Digits, s[i]));
        }
    }
}

/// No word stands for `Eof`.
pub proof fn lemma_lookup_word_not_eof(word: Seq<char>)
    ensures
        lookup_word(word) !is Eof,
{
}

/// The tokens of `s` from `pos` on, up to and with the first `Eof`.
pub open spec fn tokens_from(s: Seq<char>, pos: int) -> Seq<TokenView>
    decreases s.len() - pos,
{
    let (t, next) = next_token_spec(s, pos);
    if t is Eof || !(0 <= pos <= s.len()) {
        seq![TokenView::Eof]
    } else {
        proof {
            lemma_next_token_advances(s, pos);
        }
        seq![t] + tokens_from(s, next)
    }
}

/// A stream of tokens: not empty, ended by `Eof`, with no `Eof` before its end.
pub open spec fn is_stream(ts: Seq<TokenView>) -> bool {
    &&& ts.len() >= 1
    &&& ts.last() is Eof
    &&& forall|k: int| 0 <= k < ts.len() - 1 ==> #[trigger] ts[k] !is Eof
}

/// The tokens from any position on are a stream, with at most one token for
/// each character that is left, and `Eof`.
pub proof fn lemma_tokens_from_is_stream(s: Seq<char>, pos: int)
    requires
        0 <= pos <= s.len(),
    ensures
        is_stream(tokens_from(s, pos)),
        tokens_from(s, pos).len() <= s.len() - pos + 1,
    decreases s.len() - pos,
{
    let (t, next) = next_token_spec(s, pos);
    if !(t is Eof) {
        lemma_next_token_advances(s, pos);
        lemma_tokens_from_is_stream(s, next);
        let rest = tokens_from(s, next);
        let all = tokens_from(s, pos);
        assert(all == seq![t] + rest);
        assert forall|k: int| 0 <= k < all.len() - 1 implies #[trigger] all[k] !is Eof by {
            if k > 0 {
                assert(all[k] == rest[k - 1]);
            }
        }
    }
}

/// Reading one token takes the first token off the stream; at the end of the
/// text the stream stays as it is.
pub proof fn lemma_tokens_from_step(s: Seq<char>, pos: int)
    requires
        0 <= pos <= s.len(),
    ensures
        tokens_from(s, pos)[0] == next_token_spec(s, pos).0,
        next_token_spec(s, pos).0 is Eof ==> tokens_from(s, next_token_spec(s, pos).1)
            == tokens_from(s, pos),
        next_token_spec(s, pos).0 !is Eof ==> tokens_from(s, next_token_spec(s, pos).1)
            == tokens_from(s, pos).skip(1),
{
    let (t, next) = next_token_spec(s, pos);
    lemma_next_token_advances(s, pos);
    if t is Eof {
        assert(run_end(s, next, Run::Blank) == next);
        assert(next_token_spec(s, next).0 is Eof);
    } else {
        assert((seq![t] + tokens_from(s, next)).skip(1) =~= tokens_from(s, next));
    }
}

/// The tokens of a text: what `next_token` yields in turn, ending with `Eof`.
pub open spec fn lex_spec(s: Seq<char>) -> Seq<TokenView> {
    tokens_from(s, 0)
}

/// The models of the tokens in `v`.
pub open spec fn tokens_view(v: Seq<Token>) -> Seq<TokenView> {
    Seq::new(v.len(), |i: int| v[i]@)
}

/// A lexer over a text.
pub struct Lexer {
    input: Vec<char>,
    position: usize,
    keywords: Keywords,
}

impl Lexer {
    /// The text that is read.
    pub closed spec fn text(&self) -> Seq<char> {
        self.input@
    }

    /// The index of the next character to read.
    pub closed spec fn offset(&self) -> int {
        self.position as int
    }

    #[verifier::type_invariant]
    spec fn inv(&self) -> bool {
        self.position <= self.input.len()
    }

    /// The tokens that are still to come, ending with `Eof`.
    pub open spec fn remaining(&self) -> Seq<TokenView> {
        tokens_from(self.text(), self.offset())
    }

    /// A lexer at the start of `input`.
    pub fn new(input: String) -> (l: Lexer)
        ensures
            l.text() == input@,
            l.offset() == 0,
    {
        Lexer { input: chars_of(input.as_str()), position: 0, keywords: Keywords::new() }
    }

    /// Steps over one character, if any is left.
    fn read_char(&mut self)
        ensures
            final(self).text() == old(self).text(),
            final(self).offset() == if old(self).offset() < old(self).text().len() {
                old(self).offset() + 1
            } else {
                old(self).offset()
            },
    {
        proof {
            use_type_invariant(&*self);
        }
        if self.position < self.input.len() {
            self.position = self.position + 1;
        }
    }

    /// The character under the cursor, NUL at the end of the text.
    fn cur_char(&self) -> (c: char)
        ensures
            c == char_at(self.text(), self.offset()),
    {
        if self.position < self.input.len() {
            self.input[self.position]
        } else {
            '\0'
        }
    }

    /// The character behind the one under the cursor, NUL at the end of the text.
    fn peek_char(&self) -> (c: char)
        ensures
            c == char_at(self.text(), self.offset() + 1),
    {
        proof {
            use_type_invariant(self);
        }
        if self.position < self.input.len() && self.position + 1 < self.input.len() {
            self.input[self.position + 1]
        } else {
            '\0'
        }
    }

    /// Moves the cursor to the end of the run of kind `run` that starts under it.
    fn read_run(&mut self, run: Run)
        ensures
            final(self).text() == old(self).text(),
            final(self).offset() == run_end(old(self).text(), old(self).offset(), run),
    {
        proof {
            use_type_invariant(&*self);
        }
        let ghost start = self.position as int;
        while self.position < self.input.len() && Lexer::in_run(run, self.input[self.position])
            invariant
                self.input == old(self).input,
                start <= self.position <= self.input.len(),
                forall|k: int| start <= k < self.position
                    ==> in_run(run, #[trigger] self.input@[k]),
            decreases self.input.len() - self.position,
        {
            self.position = self.position + 1;
        }
        proof {
            lemma_run_end(self.input@, start, self.position as int, run);
        }
    }

    /// The next token. After the end of the text every call yields `Eof`.
    pub fn next_token(&mut self) -> (t: Token)
        ensures
            final(self).text() == old(self).text(),
            0 <= old(self).offset() <= old(self).text().len() <= usize::MAX,
            t@ == next_token_spec(old(self).text(), old(self).offset()).0,
            final(self).offset() == next_token_spec(old(self).text(), old(self).offset()).1,
    {
        proof {
            use_type_invariant(&*self);
        }
        self.skip_whitespace();
        proof {
            use_type_invariant(&*self);
        }
        if self.position >= self.input.len() {
            return Token::Eof;
        }
        let ch = self.cur_char();
        let tok = if ch == '=' {
            Token::Equal
        } else if ch == '+' {
            let peek = self.peek_char();
            let interface_type = if peek == 'j' {
                Token::JavaInterface
            } else if peek == 'o' {
                Token::ObjCInterface
            } else if peek == 'c' {
                Token::CppInterface
            } else {
                Token::Illegal
            };
            match interface_type {
                Token::Illegal => {},
                _ => {
                    self.read_char();
                },
            }
            interface_type
        } else if ch == ';' {
            Token::Semicolon
        } else if ch == '(' {
            Token::LParen
        } else if ch == ')' {
            Token::RParen
        } else if ch == ',' {
            Token::Comma
        } else if ch == '<' {
            Token::Lt
        } else if ch == '>' {
            Token::Gt
        } else if ch == '{' {
            Token::LBrace
        } else if ch == '}' {
            Token::RBrace
        } else if ch == '"' {
            Token::StringToken(self.read_string())
        } else if ch == ':' {
            Token::Colon
        } else if ch == '@' {
            Token::AtSign
        } else if ch == '#' {
            Token::Comment(self.read_comment())
        } else if Lexer::is_letter(ch) {
            let word = self.read_identifier();
            return self.keywords.lookup_ident(&word);
        } else if Lexer::is_digit(ch) {
            return self.read_number();
        } else {
            Token::Illegal
        };
        self.read_char();
        tok
    }

    /// Reads a string whose opening quote is under the cursor; leaves the
    /// cursor on the closing quote, or at the end of the text.
    fn read_string(&mut self) -> (r: String)
        requires
            old(self).offset() < old(self).text().len(),
        ensures
            final(self).text() == old(self).text(),
            final(self).offset() == run_end(old(self).text(), old(self).offset() + 1, Run::Quoted),
            r@ == old(self).text().subrange(old(self).offset() + 1, final(self).offset()),
    {
        self.read_char();
        let start = self.position;
        self.read_run(Run::Quoted);
        proof {
            use_type_invariant(&*self);
            lemma_run_end_bounds(self.input@, start as int, Run::Quoted);
        }
        text_of(&self.input, start, self.position)
    }

    /// Reads a number whose first character is under the cursor.
    fn read_number(&mut self) -> (t: Token)
        ensures
            final(self).text() == old(self).text(),
            final(self).offset() == run_end(old(self).text(), old(self).offset(), Run::Digits),
            t@ == TokenView::Number(
                old(self).text().subrange(old(self).offset(), final(self).offset()),
            ),
    {
        let start = self.position;
        self.read_run(Run::Digits);
        proof {
            use_type_invariant(&*self);
            lemma_run_end_bounds(self.input@, start as int, Run::Digits);
        }
        Token::Number(text_of(&self.input, start, self.position))
    }

    /// Reads a comment whose `#` is under the cursor; leaves the cursor on
    /// the line break, or at the end of the text.
    fn read_comment(&mut self) -> (r: String)
        requires
            old(self).offset() < old(self).text().len(),
        ensures
            final(self).text() == old(self).text(),
            final(self).offset() == run_end(old(self).text(), old(self).offset() + 1, Run::Remark),
            r@ == old(self).text().subrange(old(self).offset() + 1, final(self).offset()),
    {
        self.read_char();
        let start = self.position;
        self.read_run(Run::Remark);
        proof {
            use_type_invariant(&*self);
            lemma_run_end_bounds(self.input@, start as int, Run::Remark);
        }
        text_of(&self.input, start, self.position)
    }

    /// Reads a word whose first character is under the cursor.
    fn read_identifier(&mut self) -> (r: String)
        ensures
            final(self).text() == old(self).text(),
            final(self).offset() == run_end(old(self).text(), old(self).offset(), Run::Word),
            r@ == old(self).text().subrange(old(self).offset(), final(self).offset()),
    {
        let start = self.position;
        self.read_run(Run::Word);
        proof {
            use_type_invariant(&*self);
            lemma_run_end_bounds(self.input@, start as int, Run::Word);
        }
        text_of(&self.input, start, self.position)
    }

    fn is_whitespace(ch: char) -> (r: bool)
        ensures
            r == is_whitespace(ch),
    {
        ch == ' ' || ch == '\t' || ch == '\n' || ch == '\r'
    }

    fn is_newline(ch: char) -> (r: bool)
        ensures
            r == is_newline(ch),
    {
        ch == '\n' || ch == '\r'
    }

    fn skip_whitespace(&mut self)
        ensures
            final(self).text() == old(self).text(),
            final(self).offset() == run_end(old(self).text(), old(self).offset(), Run::Blank),
    {
        self.read_run(Run::Blank)
    }

    fn is_alphanumeric(ch: char) -> (r: bool)
        ensures
            r == is_alphanumeric(ch),
    {
        Lexer::is_letter(ch) || ('0' <= ch && ch <= '9')
    }

    fn is_letter(ch: char) -> (r: bool)
        ensures
            r == is_letter(ch),
    {
        ('a' <= ch && ch <= 'z') || ('A' <= ch && ch <= 'Z') || ch == '_'
    }

    fn is_digit(ch: char) -> (r: bool)
        ensures
            r == is_digit(ch),
    {
        ('0' <= ch && ch <= '9') || ch == '.'
    }

    fn in_run(run: Run, ch: char) -> (r: bool)
        ensures
            r == in_run(run, ch),
    {
        match run {
            Run::Blank => Lexer::is_whitespace(ch),
            Run::Word => Lexer::is_alphanumeric(ch),
            Run::Digits => Lexer::is_digit(ch),
            Run::Quoted => ch != '"',
            Run::Remark => !Lexer::is_newline(ch),
        }
    }
}

/// The tokens of `text`, up to and with `Eof`.
pub fn lex(text: String) -> (r: Vec<Token>)
    ensures
        tokens_view(r@) == lex_spec(text@),
{
    let mut lexer = Lexer::new(text);
    let mut out: Vec<Token> = Vec::new();
    let mut done = false;
    assert(tokens_view(out@) + lexer.remaining() =~= lex_spec(text@));
    while !done
        invariant
            lexer.text() == text@,
            0 <= lexer.offset() <= text@.len(),
            !done ==> tokens_view(out@) + lexer.remaining() == lex_spec(text@),
            done ==> tokens_view(out@) == lex_spec(text@),
        decreases text@.len() - lexer.offset() + if done { 0int } else { 1int },
    {
        let ghost before = tokens_view(out@);
        let ghost offset = lexer.offset();
        let token = lexer.next_token();
        proof {
            lemma_next_token_advances(text@, offset);
            lemma_tokens_from_step(text@, offset);
        }
        done = token.same(&Token::Eof);
        out.push(token);
        proof {
            assert(tokens_view(out@) =~= before + seq![token@]);
            if done {
                assert(tokens_from(text@, offset) =~= seq![TokenView::Eof]);
            } else {
                assert(tokens_view(out@) + lexer.remaining() =~= before + tokens_from(
                    text@,
                    offset,
                ));
            }
        }
    }
    out
}

} // verus!

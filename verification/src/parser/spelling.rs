//! How tokens are spelled, and the laws by which the lexer reads spelled
//! tokens back.

use crate::parser::keywords::lookup_word;
use crate::parser::lexer::{
    char_at, in_run, is_alphanumeric, is_digit, is_letter, is_newline, is_stream, is_whitespace,
    lemma_next_token_advances, lemma_run_end, lemma_run_end_bounds, lemma_tokens_from_is_stream,
    lex_spec, next_token_spec, run_end, tokens_from, Run,
};
use crate::parser::token::TokenView;
use vstd::prelude::*;

verus! {

/// A run in a text is where it is in the text alone: a text put in front
/// moves its end by the length of that text.
pub proof fn lemma_run_end_shift(a: Seq<char>, b: Seq<char>, p: int, run: Run)
    requires
        0 <= p <= b.len(),
    ensures
        run_end(a + b, a.len() + p, run) == a.len() + run_end(b, p, run),
    decreases b.len() - p,
{
    let s = a + b;
    if p < b.len() {
        assert(s[a.len() + p] == b[p]);
        if in_run(run, b[p]) {
            lemma_run_end_shift(a, b, p + 1, run);
        }
    }
}

/// The next token of a text is what it is in the text alone: a text put in
/// front moves the position behind it by the length of that text.
pub proof fn lemma_next_token_shift(a: Seq<char>, b: Seq<char>, p: int)
    requires
        0 <= p <= b.len(),
    ensures
        next_token_spec(a + b, a.len() + p).0 == next_token_spec(b, p).0,
        next_token_spec(a + b, a.len() + p).1 == a.len() + next_token_spec(b, p).1,
{
    let s = a + b;
    let n = a.len() as int;
    lemma_run_end_shift(a, b, p, Run::Blank);
    lemma_run_end_bounds(b, p, Run::Blank);
    let i = run_end(b, p, Run::Blank);
    if i < b.len() {
        assert(s[n + i] == b[i]);
        assert(char_at(s, n + i + 1) == char_at(b, i + 1)) by {
            if i + 1 < b.len() {
                assert(s[n + i + 1] == b[i + 1]);
            }
        }
        lemma_run_end_shift(a, b, i + 1, Run::Quoted);
        lemma_run_end_shift(a, b, i + 1, Run::Remark);
        lemma_run_end_shift(a, b, i, Run::Word);
        lemma_run_end_shift(a, b, i, Run::Digits);
        lemma_run_end_bounds(b, i + 1, Run::Quoted);
        lemma_run_end_bounds(b, i + 1, Run::Remark);
        lemma_run_end_bounds(b, i, Run::Word);
        lemma_run_end_bounds(b, i, Run::Digits);
        assert(s.subrange(n + i + 1, n + run_end(b, i + 1, Run::Quoted)) =~= b.subrange(
            i + 1,
            run_end(b, i + 1, Run::Quoted),
        ));
        assert(s.subrange(n + i + 1, n + run_end(b, i + 1, Run::Remark)) =~= b.subrange(
            i + 1,
            run_end(b, i + 1, Run::Remark),
        ));
        assert(s.subrange(n + i, n + run_end(b, i, Run::Word)) =~= b.subrange(
            i,
            run_end(b, i, Run::Word),
        ));
        assert(s.subrange(n + i, n + run_end(b, i, Run::Digits)) =~= b.subrange(
            i,
            run_end(b, i, Run::Digits),
        ));
    }
}

/// The tokens of a text from a position on are what they are in the text
/// alone, whatever is put in front.
pub proof fn lemma_tokens_from_shift(a: Seq<char>, b: Seq<char>, p: int)
    requires
        0 <= p <= b.len(),
    ensures
        tokens_from(a + b, a.len() + p) == tokens_from(b, p),
    decreases b.len() - p,
{
    lemma_next_token_shift(a, b, p);
    lemma_next_token_advances(b, p);
    let (t, next) = next_token_spec(b, p);
    if !(t is Eof) {
        lemma_tokens_from_shift(a, b, next);
    }
}

/// If the first token of `lexeme + b` is `t` and ends where `lexeme` ends,
/// the tokens of `lexeme + b` are `t` and then the tokens of `b`.
pub proof fn lemma_first_token(lexeme: Seq<char>, b: Seq<char>, t: TokenView)
    requires
        next_token_spec(lexeme + b, 0) == (t, lexeme.len() as int),
        t !is Eof,
    ensures
        tokens_from(lexeme + b, 0) == seq![t] + tokens_from(b, 0),
{
    lemma_tokens_from_shift(lexeme, b, 0);
}

/// Whether every character of `s` is whitespace.
pub open spec fn is_blank(s: Seq<char>) -> bool {
    forall|k: int| 0 <= k < s.len() ==> is_whitespace(#[trigger] s[k])
}

/// Whitespace before a text does not change its tokens.
pub proof fn lemma_lex_blank(ws: Seq<char>, b: Seq<char>)
    requires
        is_blank(ws),
    ensures
        tokens_from(ws + b, 0) == tokens_from(b, 0),
{
    let s = ws + b;
    let n = ws.len() as int;
    lemma_run_end_bounds(b, 0, Run::Blank);
    let e = run_end(b, 0, Run::Blank);
    assert(run_end(s, 0, Run::Blank) == n + e) by {
        assert forall|k: int| 0 <= k < n + e implies in_run(Run::Blank, #[trigger] s[k]) by {
            if k < n {
                assert(s[k] == ws[k]);
            } else {
                assert(s[k] == b[k - n]);
            }
        }
        if n + e < s.len() {
            assert(s[n + e] == b[e]);
        }
        lemma_run_end(s, 0, n + e, Run::Blank);
    }
    lemma_run_end_shift(ws, b, 0, Run::Blank);
    assert(next_token_spec(s, 0) == next_token_spec(s, n));
    lemma_next_token_shift(ws, b, 0);
    lemma_next_token_advances(b, 0);
    let (t, next) = next_token_spec(b, 0);
    if !(t is Eof) {
        lemma_tokens_from_shift(ws, b, next);
    }
}

/// The token of a character that is a token by itself, if it is one.
pub open spec fn punctuation(c: char) -> Option<TokenView> {
    if c == '=' {
        Some(TokenView::Equal)
    } else if c == ';' {
        Some(TokenView::Semicolon)
    } else if c == '(' {
        Some(TokenView::LParen)
    } else if c == ')' {
        Some(TokenView::RParen)
    } else if c == ',' {
        Some(TokenView::Comma)
    } else if c == '<' {
        Some(TokenView::Lt)
    } else if c == '>' {
        Some(TokenView::Gt)
    } else if c == '{' {
        Some(TokenView::LBrace)
    } else if c == '}' {
        Some(TokenView::RBrace)
    } else if c == ':' {
        Some(TokenView::Colon)
    } else if c == '@' {
        Some(TokenView::AtSign)
    } else {
        None
    }
}

/// A punctuation character is read as its token, whatever follows.
pub proof fn lemma_lex_punctuation(c: char, b: Seq<char>)
    requires
        punctuation(c) is Some,
    ensures
        tokens_from(seq![c] + b, 0) == seq![punctuation(c)->0] + tokens_from(b, 0),
{
    let s = seq![c] + b;
    assert(s[0] == c);
    assert(run_end(s, 0, Run::Blank) == 0);
    lemma_first_token(seq![c], b, punctuation(c)->0);
}

/// The token of a target tag, by the letter behind its `+`.
pub open spec fn tag(c: char) -> Option<TokenView> {
    if c == 'j' {
        Some(TokenView::JavaInterface)
    } else if c == 'o' {
        Some(TokenView::ObjCInterface)
    } else if c == 'c' {
        Some(TokenView::CppInterface)
    } else {
        None
    }
}

/// `+` with the letter of a target is read as its tag, whatever follows.
pub proof fn lemma_lex_tag(c: char, b: Seq<char>)
    requires
        tag(c) is Some,
    ensures
        tokens_from(seq!['+', c] + b, 0) == seq![tag(c)->0] + tokens_from(b, 0),
{
    let s = seq!['+', c] + b;
    assert(s[0] == '+');
    assert(s[1] == c);
    assert(run_end(s, 0, Run::Blank) == 0);
    lemma_first_token(seq!['+', c], b, tag(c)->0);
}

/// Whether `w` is written as a word: a letter or an underscore, then
/// letters, digits and underscores.
pub open spec fn is_word(w: Seq<char>) -> bool {
    &&& w.len() > 0
    &&& is_letter(w[0])
    &&& forall|k: int| 0 <= k < w.len() ==> is_alphanumeric(#[trigger] w[k])
}

/// Whether a word may end before `b`: `b` is empty or starts with a
/// character that cannot stand in a word.
pub open spec fn ends_word(b: Seq<char>) -> bool {
    b.len() == 0 || !is_alphanumeric(b[0])
}

/// A word is read as the token that it stands for, if what follows cannot
/// belong to it.
pub proof fn lemma_lex_word(w: Seq<char>, b: Seq<char>)
    requires
        is_word(w),
        ends_word(b),
    ensures
        tokens_from(w + b, 0) == seq![lookup_word(w)] + tokens_from(b, 0),
{
    let s = w + b;
    let n = w.len() as int;
    assert(s[0] == w[0]);
    assert(run_end(s, 0, Run::Blank) == 0);
    assert(run_end(s, 0, Run::Word) == n) by {
        assert forall|k: int| 0 <= k < n implies in_run(Run::Word, #[trigger] s[k]) by {
            assert(s[k] == w[k]);
        }
        if n < s.len() {
            assert(s[n] == b[0]);
        }
        lemma_run_end(s, 0, n, Run::Word);
    }
    assert(s.subrange(0, n) =~= w);
    lemma_first_token(w, b, lookup_word(w));
}

/// Whether `w` is written as a number: digits and dots, at least one.
pub open spec fn is_number(w: Seq<char>) -> bool {
    &&& w.len() > 0
    &&& forall|k: int| 0 <= k < w.len() ==> is_digit(#[trigger] w[k])
}

/// Whether a number may end before `b`: `b` is empty or starts with a
/// character that cannot stand in a number.
pub open spec fn ends_number(b: Seq<char>) -> bool {
    b.len() == 0 || !is_digit(b[0])
}

/// A number is read as a number token, if what follows cannot belong to it.
pub proof fn lemma_lex_number(w: Seq<char>, b: Seq<char>)
    requires
        is_number(w),
        ends_number(b),
    ensures
        tokens_from(w + b, 0) == seq![TokenView::Number(w)] + tokens_from(b, 0),
{
    let s = w + b;
    let n = w.len() as int;
    assert(s[0] == w[0]);
    assert(is_digit(w[0]));
    assert(run_end(s, 0, Run::Blank) == 0);
    assert(run_end(s, 0, Run::Digits) == n) by {
        assert forall|k: int| 0 <= k < n implies in_run(Run::Digits, #[trigger] s[k]) by {
            assert(s[k] == w[k]);
        }
        if n < s.len() {
            assert(s[n] == b[0]);
        }
        lemma_run_end(s, 0, n, Run::Digits);
    }
    assert(s.subrange(0, n) =~= w);
    lemma_first_token(w, b, TokenView::Number(w));
}

/// Whether `s` can stand between double quotes: it holds no double quote.
pub open spec fn is_quotable(s: Seq<char>) -> bool {
    forall|k: int| 0 <= k < s.len() ==> #[trigger] s[k] != '"'
}

/// A text between double quotes is read as a string token, whatever follows.
pub proof fn lemma_lex_string(body: Seq<char>, b: Seq<char>)
    requires
        is_quotable(body),
    ensures
        tokens_from(seq!['"'] + body + seq!['"'] + b, 0) == seq![TokenView::StringToken(body)]
            + tokens_from(b, 0),
{
    let lexeme = seq!['"'] + body + seq!['"'];
    let s = lexeme + b;
    let n = body.len() as int;
    assert(s[0] == '"');
    assert(run_end(s, 0, Run::Blank) == 0);
    assert(run_end(s, 1, Run::Quoted) == n + 1) by {
        assert forall|k: int| 1 <= k < n + 1 implies in_run(Run::Quoted, #[trigger] s[k]) by {
            assert(s[k] == body[k - 1]);
        }
        assert(s[n + 1] == '"');
        lemma_run_end(s, 1, n + 1, Run::Quoted);
    }
    assert(s.subrange(1, n + 1) =~= body);
    lemma_first_token(lexeme, b, TokenView::StringToken(body));
}

/// Whether `s` can stand in a comment: it holds no line break.
pub open spec fn is_remark(s: Seq<char>) -> bool {
    forall|k: int| 0 <= k < s.len() ==> !is_newline(#[trigger] s[k])
}

/// `#` with a text and a line break is read as a comment token, whatever follows.
pub proof fn lemma_lex_comment(text: Seq<char>, b: Seq<char>)
    requires
        is_remark(text),
    ensures
        tokens_from(seq!['#'] + text + seq!['\n'] + b, 0) == seq![TokenView::Comment(text)]
            + tokens_from(b, 0),
{
    let lexeme = seq!['#'] + text + seq!['\n'];
    let s = lexeme + b;
    let n = text.len() as int;
    assert(s[0] == '#');
    assert(run_end(s, 0, Run::Blank) == 0);
    assert(run_end(s, 1, Run::Remark) == n + 1) by {
        assert forall|k: int| 1 <= k < n + 1 implies in_run(Run::Remark, #[trigger] s[k]) by {
            assert(s[k] == text[k - 1]);
        }
        assert(s[n + 1] == '\n');
        lemma_run_end(s, 1, n + 1, Run::Remark);
    }
    assert(s.subrange(1, n + 1) =~= text);
    lemma_first_token(lexeme, b, TokenView::Comment(text));
}

/// The tokens of the empty text are the end of the text alone.
pub proof fn lemma_lex_empty()
    ensures
        tokens_from(Seq::<char>::empty(), 0) == seq![TokenView::Eof],
{
    let s = Seq::<char>::empty();
    assert(run_end(s, 0, Run::Blank) == 0);
}

/// `#` with a text at the end of the input is read as a comment token.
pub proof fn lemma_lex_comment_at_end(text: Seq<char>)
    requires
        is_remark(text),
    ensures
        tokens_from(seq!['#'] + text, 0) == seq![TokenView::Comment(text), TokenView::Eof],
{
    let s = seq!['#'] + text;
    let n = text.len() as int;
    assert(s[0] == '#');
    assert(run_end(s, 0, Run::Blank) == 0);
    assert(run_end(s, 1, Run::Remark) == n + 1) by {
        assert forall|k: int| 1 <= k < n + 1 implies in_run(Run::Remark, #[trigger] s[k]) by {
            assert(s[k] == text[k - 1]);
        }
        lemma_run_end(s, 1, n + 1, Run::Remark);
    }
    assert(s.subrange(1, n + 1) =~= text);
    assert(s + Seq::<char>::empty() =~= s);
    lemma_first_token(s, Seq::<char>::empty(), TokenView::Comment(text));
    lemma_lex_empty();
    assert(seq![TokenView::Comment(text)] + seq![TokenView::Eof] =~= seq![
        TokenView::Comment(text),
        TokenView::Eof,
    ]);
}

/// How a token is spelled in a text.
///
/// A name, a number and a type keyword are spelled by their text, a string
/// between double quotes, a comment behind `#`. `Eof` is spelled by the end
/// of the text, and `Illegal` has no spelling of its own.
pub open spec fn spelling(t: TokenView) -> Seq<char> {
    match t {
        TokenView::Illegal => Seq::empty(),
        TokenView::Eof => Seq::empty(),
        TokenView::Import => "import"@,
        TokenView::Ident(s) => s,
        TokenView::Enum => "enum"@,
        TokenView::Record => "record"@,
        TokenView::Interface => "interface"@,
        TokenView::Colon => seq![':'],
        TokenView::Comment(s) => seq!['#'] + s,
        TokenView::Semicolon => seq![';'],
        TokenView::Comma => seq![','],
        TokenView::LBrace => seq!['{'],
        TokenView::RBrace => seq!['}'],
        TokenView::LParen => seq!['('],
        TokenView::RParen => seq![')'],
        TokenView::Lt => seq!['<'],
        TokenView::Gt => seq!['>'],
        TokenView::Equal => seq!['='],
        TokenView::StringToken(s) => seq!['"'] + s + seq!['"'],
        TokenView::Number(s) => s,
        TokenView::Type(_, s) => s,
        TokenView::True => "true"@,
        TokenView::False => "false"@,
        TokenView::AtSign => seq!['@'],
        TokenView::Static => "static"@,
        TokenView::Const => "const"@,
        TokenView::Dervive => "deriving"@,
        TokenView::Eq => "eq"@,
        TokenView::Ord => "ord"@,
        TokenView::JavaInterface => seq!['+', 'j'],
        TokenView::ObjCInterface => seq!['+', 'o'],
        TokenView::CppInterface => seq!['+', 'c'],
    }
}

/// The tokens that a text can spell: every token but `Illegal` and `Eof`,
/// where a name is a word that is not reserved, a type keyword has the kind
/// of its spelling, a number is made of digits and dots, a string holds no
/// double quote and a comment no line break.
pub open spec fn is_spellable(t: TokenView) -> bool {
    match t {
        TokenView::Illegal => false,
        TokenView::Eof => false,
        TokenView::Ident(s) => is_word(s) && lookup_word(s) == t,
        TokenView::Type(_, s) => is_word(s) && lookup_word(s) == t,
        TokenView::Number(s) => is_number(s),
        TokenView::StringToken(s) => is_quotable(s),
        TokenView::Comment(s) => is_remark(s),
        _ => true,
    }
}

/// The reserved words are words, and each stands for its token.
pub proof fn lemma_reserved_words()
    ensures
        is_word("import"@) && lookup_word("import"@) == TokenView::Import,
        is_word("enum"@) && lookup_word("enum"@) == TokenView::Enum,
        is_word("record"@) && lookup_word("record"@) == TokenView::Record,
        is_word("interface"@) && lookup_word("interface"@) == TokenView::Interface,
        is_word("true"@) && lookup_word("true"@) == TokenView::True,
        is_word("false"@) && lookup_word("false"@) == TokenView::False,
        is_word("static"@) && lookup_word("static"@) == TokenView::Static,
        is_word("const"@) && lookup_word("const"@) == TokenView::Const,
        is_word("deriving"@) && lookup_word("deriving"@) == TokenView::Dervive,
        is_word("eq"@) && lookup_word("eq"@) == TokenView::Eq,
        is_word("ord"@) && lookup_word("ord"@) == TokenView::Ord,
{
    reveal_strlit("import");
    reveal_strlit("enum");
    reveal_strlit("record");
    reveal_strlit("interface");
    reveal_strlit("true");
    reveal_strlit("false");
    reveal_strlit("static");
    reveal_strlit("const");
    reveal_strlit("deriving");
    reveal_strlit("eq");
    reveal_strlit("ord");
    assert("import"@.len() == 6);
    assert("enum"@.len() == 4);
    assert("record"@.len() == 6);
    assert("interface"@.len() == 9);
    assert("true"@.len() == 4);
    assert("false"@.len() == 5);
    assert("static"@.len() == 6);
    assert("const"@.len() == 5);
    assert("deriving"@.len() == 8);
    assert("eq"@.len() == 2);
    assert("ord"@.len() == 3);
    assert("import"@[0] == 'i');
    assert("enum"@[0] == 'e');
    assert("record"@[0] == 'r');
    assert("true"@[0] == 't');
    assert("false"@[0] == 'f');
    assert("static"@[0] == 's');
    assert("const"@[0] == 'c');
}

/// A token that is spelled, followed by text that cannot belong to it, is
/// read back as that token; then the tokens of the following text come.
pub open spec fn ends_token(t: TokenView, b: Seq<char>) -> bool {
    match t {
        TokenView::Comment(_) => b.len() > 0 && b[0] == '\n',
        TokenView::Number(_) => ends_number(b),
        TokenView::Ident(_) | TokenView::Type(_, _) | TokenView::Import | TokenView::Enum
        | TokenView::Record | TokenView::Interface | TokenView::True | TokenView::False
        | TokenView::Static | TokenView::Const | TokenView::Dervive | TokenView::Eq
        | TokenView::Ord => ends_word(b),
        _ => true,
    }
}

/// The text that is left behind a token spelled before `b`: a comment takes
/// the line break that ends it.
pub open spec fn after_token(t: TokenView, b: Seq<char>) -> Seq<char> {
    match t {
        TokenView::Comment(_) => b.subrange(1, b.len() as int),
        _ => b,
    }
}

/// A spelled token is read back: the tokens of its spelling with a text
/// behind it are the token itself and then the tokens of what is left.
pub proof fn lemma_lex_spelled(t: TokenView, b: Seq<char>)
    requires
        is_spellable(t),
        ends_token(t, b),
    ensures
        tokens_from(spelling(t) + b, 0) == seq![t] + tokens_from(after_token(t, b), 0),
{
    lemma_reserved_words();
    match t {
        TokenView::Ident(s) => {
            lemma_lex_word(s, b);
        },
        TokenView::Type(_, s) => {
            lemma_lex_word(s, b);
        },
        TokenView::Import | TokenView::Enum | TokenView::Record | TokenView::Interface
        | TokenView::True | TokenView::False | TokenView::Static | TokenView::Const
        | TokenView::Dervive | TokenView::Eq | TokenView::Ord => {
            lemma_lex_word(spelling(t), b);
        },
        TokenView::Number(s) => {
            lemma_lex_number(s, b);
        },
        TokenView::StringToken(s) => {
            lemma_lex_string(s, b);
        },
        TokenView::Comment(s) => {
            let rest = b.subrange(1, b.len() as int);
            assert(seq!['#'] + s + b =~= seq!['#'] + s + seq!['\n'] + rest);
            lemma_lex_comment(s, rest);
        },
        TokenView::JavaInterface => {
            lemma_lex_tag('j', b);
        },
        TokenView::ObjCInterface => {
            lemma_lex_tag('o', b);
        },
        TokenView::CppInterface => {
            lemma_lex_tag('c', b);
        },
        TokenView::Colon => {
            lemma_lex_punctuation(':', b);
        },
        TokenView::Semicolon => {
            lemma_lex_punctuation(';', b);
        },
        TokenView::Comma => {
            lemma_lex_punctuation(',', b);
        },
        TokenView::LBrace => {
            lemma_lex_punctuation('{', b);
        },
        TokenView::RBrace => {
            lemma_lex_punctuation('}', b);
        },
        TokenView::LParen => {
            lemma_lex_punctuation('(', b);
        },
        TokenView::RParen => {
            lemma_lex_punctuation(')', b);
        },
        TokenView::Lt => {
            lemma_lex_punctuation('<', b);
        },
        TokenView::Gt => {
            lemma_lex_punctuation('>', b);
        },
        TokenView::Equal => {
            lemma_lex_punctuation('=', b);
        },
        TokenView::AtSign => {
            lemma_lex_punctuation('@', b);
        },
        _ => {},
    }
}

/// Every token that a text can spell is read back from its spelling: the
/// tokens of the spelling are the token and the end of the text.
pub proof fn lemma_lex_spelling(t: TokenView)
    requires
        is_spellable(t),
    ensures
        lex_spec(spelling(t)) == seq![t, TokenView::Eof],
{
    let none = Seq::<char>::empty();
    assert(spelling(t) + none =~= spelling(t));
    lemma_lex_empty();
    match t {
        TokenView::Comment(s) => {
            lemma_lex_comment_at_end(s);
        },
        _ => {
            lemma_lex_spelled(t, none);
            assert(seq![t] + seq![TokenView::Eof] =~= seq![t, TokenView::Eof]);
        },
    }
}

/// After the end of the text, every further token is the end of the text
/// again, and the position stays.
pub proof fn lemma_eof_repeats(s: Seq<char>, pos: int)
    requires
        0 <= pos <= s.len(),
        next_token_spec(s, pos).0 is Eof,
    ensures
        next_token_spec(s, next_token_spec(s, pos).1) == next_token_spec(s, pos),
        next_token_spec(s, pos).1 == s.len(),
{
    lemma_next_token_advances(s, pos);
    let next = next_token_spec(s, pos).1;
    assert(run_end(s, next, Run::Blank) == next);
}

/// The tokens of every text end with the end of the text, and hold it
/// nowhere else.
pub proof fn lemma_lex_ends_in_eof(text: Seq<char>)
    ensures
        is_stream(lex_spec(text)),
{
    lemma_tokens_from_is_stream(text, 0);
}

/// The text that spells the tokens of `ts`, each on a line of its own.
pub open spec fn spell_all(ts: Seq<TokenView>) -> Seq<char>
    decreases ts.len(),
{
    if ts.len() == 0 {
        Seq::empty()
    } else {
        spelling(ts.first()) + seq!['\n'] + spell_all(ts.drop_first())
    }
}

/// Whether every token of `ts` can be spelled.
pub open spec fn are_spellable(ts: Seq<TokenView>) -> bool {
    forall|k: int| 0 <= k < ts.len() ==> is_spellable(#[trigger] ts[k])
}

/// Tokens that are spelled line by line are read back: the tokens of the
/// text are the tokens themselves, and the end of the text.
pub proof fn lemma_lex_spell_all(ts: Seq<TokenView>)
    requires
        are_spellable(ts),
    ensures
        lex_spec(spell_all(ts)) == ts + seq![TokenView::Eof],
    decreases ts.len(),
{
    if ts.len() == 0 {
        lemma_lex_empty();
        assert(ts + seq![TokenView::Eof] =~= seq![TokenView::Eof]);
    } else {
        let t = ts.first();
        let rest = ts.drop_first();
        let tail = spell_all(rest);
        let b = seq!['\n'] + tail;
        assert(is_spellable(ts[0]));
        assert forall|k: int| 0 <= k < rest.len() implies is_spellable(#[trigger] rest[k]) by {
            assert(rest[k] == ts[k + 1]);
        }
        lemma_lex_spell_all(rest);
        assert(b[0] == '\n');
        assert(spell_all(ts) =~= spelling(t) + b);
        lemma_lex_spelled(t, b);
        assert(b.subrange(1, b.len() as int) =~= tail);
        lemma_lex_blank(seq!['\n'], tail);
        assert(seq![t] + (rest + seq![TokenView::Eof]) =~= ts + seq![TokenView::Eof]);
    }
}

/// Every token that the lexer reads can be spelled, but for `Illegal` and
/// the end of the text.
pub proof fn lemma_read_token_is_spellable(s: Seq<char>, pos: int)
    requires
        0 <= pos <= s.len(),
    ensures
        is_spellable(next_token_spec(s, pos).0) || next_token_spec(s, pos).0 is Illegal
            || next_token_spec(s, pos).0 is Eof,
{
    lemma_run_end_bounds(s, pos, Run::Blank);
    let i = run_end(s, pos, Run::Blank);
    if i < s.len() {
        lemma_run_end_bounds(s, i + 1, Run::Quoted);
        lemma_run_end_bounds(s, i + 1, Run::Remark);
        lemma_run_end_bounds(s, i, Run::Word);
        lemma_run_end_bounds(s, i, Run::Digits);
        let c = s[i];
        if c == '"' {
            let e = run_end(s, i + 1, Run::Quoted);
            let body = s.subrange(i + 1, e);
            assert forall|k: int| 0 <= k < body.len() implies #[trigger] body[k] != '"' by {
                assert(in_run(Run::Quoted, s[i + 1 + k]));
            }
        } else if c == '#' {
            let e = run_end(s, i + 1, Run::Remark);
            let body = s.subrange(i + 1, e);
            assert forall|k: int| 0 <= k < body.len() implies !is_newline(#[trigger] body[k]) by {
                assert(in_run(Run::Remark, s[i + 1 + k]));
            }
        } else if is_letter(c) && punctuation(c) is None && c != '+' {
            let e = run_end(s, i, Run::Word);
            let word = s.subrange(i, e);
            assert(in_run(Run::Word, s[i]));
            assert(word[0] == s[i]);
            assert forall|k: int| 0 <= k < word.len() implies
                is_alphanumeric(#[trigger] word[k]) by {
                assert(in_run(Run::Word, s[i + k]));
            }
            assert(is_word(word));
        } else if is_digit(c) && punctuation(c) is None && c != '+' {
            let e = run_end(s, i, Run::Digits);
            let number = s.subrange(i, e);
            assert(in_run(Run::Digits, s[i]));
            assert forall|k: int| 0 <= k < number.len() implies is_digit(#[trigger] number[k]) by {
                assert(in_run(Run::Digits, s[i + k]));
            }
        }
    }
}

/// Every token of a text can be spelled, but for `Illegal` and the end of
/// the text.
pub proof fn lemma_read_tokens_are_spellable(s: Seq<char>, pos: int)
    requires
        0 <= pos <= s.len(),
    ensures
        forall|k: int|
            0 <= k < tokens_from(s, pos).len() ==> is_spellable(#[trigger] tokens_from(s, pos)[k])
                || tokens_from(s, pos)[k] is Illegal || tokens_from(s, pos)[k] is Eof,
    decreases s.len() - pos,
{
    let (t, next) = next_token_spec(s, pos);
    lemma_read_token_is_spellable(s, pos);
    if !(t is Eof) {
        lemma_next_token_advances(s, pos);
        lemma_read_tokens_are_spellable(s, next);
        let all = tokens_from(s, pos);
        let rest = tokens_from(s, next);
        assert forall|k: int| 0 <= k < all.len() implies is_spellable(#[trigger] all[k])
            || all[k] is Illegal || all[k] is Eof by {
            if k > 0 {
                assert(all[k] == rest[k - 1]);
            }
        }
    }
}

/// Reading is idempotent: the tokens of a text without an illegal
/// character, spelled line by line, are read back as the same tokens.
pub proof fn lemma_relex(text: Seq<char>)
    requires
        forall|k: int| 0 <= k < lex_spec(text).len() ==> !(#[trigger] lex_spec(text)[k] is Illegal),
    ensures
        lex_spec(spell_all(lex_spec(text).drop_last())) == lex_spec(text),
{
    let ts = lex_spec(text);
    let front = ts.drop_last();
    lemma_tokens_from_is_stream(text, 0);
    lemma_read_tokens_are_spellable(text, 0);
    assert forall|k: int| 0 <= k < front.len() implies is_spellable(#[trigger] front[k]) by {
        assert(front[k] == ts[k]);
        assert(!(ts[k] is Eof));
        assert(!(ts[k] is Illegal));
    }
    lemma_lex_spell_all(front);
    assert(front + seq![TokenView::Eof] =~= ts);
}

} // verus!

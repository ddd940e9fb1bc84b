//! The lexer: converts raw source text into an ordered sequence of positioned
//! tokens, or fails with a lexical error.
//!
//! The scanning rules are modeled by the spec function [`lex`], a recursive
//! left-to-right scan over the character sequence; [`tokenize`] is proved to
//! return exactly what `lex` describes.

use vstd::prelude::*;
use vstd::string::*;
use std::collections::VecDeque;

use crate::skr_errors::{CustomError, CustomErrorView};
use crate::tokens::{ModifierKeyword, SpaceTypes, Token, TokenContainer, TokenContainerView,
    TokenView, chars_to_string, token_views};

verus! {

// ---------------------
// --- Character classes
// ---------------------

/// An ASCII letter or `_`: starts an identifier-or-keyword scan.
pub open spec fn is_word_start_spec(c: char) -> bool {
    (97 <= c as u32 && c as u32 <= 122) || (65 <= c as u32 && c as u32 <= 90) || c == '_'
}

/// An ASCII decimal digit: starts a numeric scan.
pub open spec fn is_digit_spec(c: char) -> bool {
    48 <= c as u32 && c as u32 <= 57
}

/// A character that may continue an identifier or keyword.
pub open spec fn is_word_char_spec(c: char) -> bool {
    is_word_start_spec(c) || is_digit_spec(c)
}

fn is_word_start(c: char) -> (b: bool)
    ensures
        b == is_word_start_spec(c),
{
    let u = c as u32;
    (97 <= u && u <= 122) || (65 <= u && u <= 90) || c == '_'
}

fn is_digit(c: char) -> (b: bool)
    ensures
        b == is_digit_spec(c),
{
    let u = c as u32;
    48 <= u && u <= 57
}

fn is_word_char(c: char) -> (b: bool)
    ensures
        b == is_word_char_spec(c),
{
    is_word_start(c) || is_digit(c)
}

/// The mapping of an escaped character inside a string literal: `\n`, `\t`,
/// `\r` and `\0` map to control characters, anything else passes through.
pub open spec fn escape_char_spec(c: char) -> char {
    if c == 'n' {
        '\n'
    } else if c == 't' {
        '\t'
    } else if c == 'r' {
        '\r'
    } else if c == '0' {
        '\0'
    } else {
        c
    }
}

fn escape_char(c: char) -> (r: char)
    ensures
        r == escape_char_spec(c),
{
    if c == 'n' {
        '\n'
    } else if c == 't' {
        '\t'
    } else if c == 'r' {
        '\r'
    } else if c == '0' {
        '\0'
    } else {
        c
    }
}

// ---------------------
// --- Spec-level scans
// ---------------------

/// First index at or after `i` whose character no longer belongs to the word
/// being scanned.
pub open spec fn word_end(s: Seq<char>, i: nat) -> nat
    decreases s.len() - i,
{
    if i >= s.len() || !is_word_char_spec(s[i as int]) {
        i
    } else {
        word_end(s, i + 1)
    }
}

/// Numeric scan from `i`: accumulate digits, allow exactly one `.` to switch
/// to float mode. Returns the end index and whether a `.` was seen, or `None`
/// for a second `.`.
pub open spec fn num_end(s: Seq<char>, i: nat, seen_dot: bool) -> Option<(nat, bool)>
    decreases s.len() - i,
{
    if i >= s.len() {
        Some((i, seen_dot))
    } else if s[i as int] == '.' {
        if seen_dot {
            None
        } else {
            num_end(s, i + 1, true)
        }
    } else if is_digit_spec(s[i as int]) {
        num_end(s, i + 1, seen_dot)
    } else {
        Some((i, seen_dot))
    }
}

/// String scan from `i` (the index after the opening quote), with `esc` set
/// when the previous character was an unconsumed backslash. Returns the
/// accumulated content and the index after the closing quote, or `None` when
/// the input ends before an unescaped closing quote.
pub open spec fn str_scan(s: Seq<char>, i: nat, esc: bool) -> Option<(Seq<char>, nat)>
    decreases s.len() - i,
{
    if i >= s.len() {
        None
    } else if esc {
        match str_scan(s, i + 1, false) {
            None => None,
            Some((content, e)) => Some((seq![escape_char_spec(s[i as int])] + content, e)),
        }
    } else if s[i as int] == '\\' {
        str_scan(s, i + 1, true)
    } else if s[i as int] == '"' {
        Some((Seq::empty(), i + 1))
    } else {
        match str_scan(s, i + 1, false) {
            None => None,
            Some((content, e)) => Some((seq![s[i as int]] + content, e)),
        }
    }
}

/// Index just after the newline that ends a line comment starting at `i`, or
/// the end of input if no newline follows.
pub open spec fn comment_end(s: Seq<char>, i: nat) -> nat
    decreases s.len() - i,
{
    if i >= s.len() {
        i
    } else if s[i as int] == '\n' {
        i + 1
    } else {
        comment_end(s, i + 1)
    }
}

proof fn lemma_word_end_bounds(s: Seq<char>, i: nat)
    requires
        i <= s.len(),
    ensures
        i <= word_end(s, i) <= s.len(),
    decreases s.len() - i,
{
    if i >= s.len() || !is_word_char_spec(s[i as int]) {
    } else {
        lemma_word_end_bounds(s, i + 1);
    }
}

proof fn lemma_num_end_bounds(s: Seq<char>, i: nat, seen_dot: bool)
    requires
        i <= s.len(),
    ensures
        (match num_end(s, i, seen_dot) {
            Some((e, f)) => i <= e <= s.len(),
            None => true,
        }),
    decreases s.len() - i,
{
    if i >= s.len() {
    } else if s[i as int] == '.' {
        if !seen_dot {
            lemma_num_end_bounds(s, i + 1, true);
        }
    } else if is_digit_spec(s[i as int]) {
        lemma_num_end_bounds(s, i + 1, seen_dot);
    }
}

proof fn lemma_str_scan_bounds(s: Seq<char>, i: nat, esc: bool)
    ensures
        (match str_scan(s, i, esc) {
            Some((content, e)) => i + 1 <= e <= s.len(),
            None => true,
        }),
    decreases s.len() - i,
{
    if i >= s.len() {
    } else if esc {
        lemma_str_scan_bounds(s, (i + 1) as nat, false);
    } else if s[i as int] == '\\' {
        lemma_str_scan_bounds(s, i + 1, true);
    } else if s[i as int] == '"' {
    } else {
        lemma_str_scan_bounds(s, (i + 1) as nat, false);
    }
}

proof fn lemma_comment_end_bounds(s: Seq<char>, i: nat)
    requires
        i <= s.len(),
    ensures
        i <= comment_end(s, i) <= s.len(),
    decreases s.len() - i,
{
    if i >= s.len() {
    } else if s[i as int] == '\n' {
    } else {
        lemma_comment_end_bounds(s, i + 1);
    }
}

// ---------------------
// --- The keyword table
// ---------------------

/// The fixed keyword table: a scanned word is mapped through it, and anything
/// not in the table becomes an identifier.
pub open spec fn keyword_token(w: Seq<char>) -> TokenView {
    if w == "fu"@ {
        TokenView::KeywordModifier(ModifierKeyword::Global)
    } else if w == "ju"@ {
        TokenView::KeywordModifier(ModifierKeyword::Constant)
    } else if w == "pu"@ {
        TokenView::KeywordModifier(ModifierKeyword::Private)
    } else if w == "ij"@ {
        TokenView::KeywordIf
    } else if w == "sula"@ {
        TokenView::KeywordElse
    } else if w == "skr_app"@ {
        TokenView::NatCall
    } else if w == "io"@ {
        TokenView::Bool(true)
    } else if w == "no"@ {
        TokenView::Bool(false)
    } else if w == "ums"@ {
        TokenView::KeywordFunction
    } else if w == "kat"@ {
        TokenView::KeywordClass
    } else if w == "ei"@ {
        TokenView::KeywordReturn
    } else if w == "biuli"@ {
        TokenView::KeywordBubbleScope
    } else if w == "kodi"@ {
        TokenView::KeywordSimpleScope
    } else if w == "spoki"@ {
        TokenView::KeywordUnusedScope
    } else {
        TokenView::Identifier(w)
    }
}

/// Maps an accumulated word through the keyword table; a word not in the
/// table becomes an identifier token.
pub fn word_to_token(res: String) -> (t: Token)
    ensures
        t@ == keyword_token(res@),
{
    if res == String::from_str("fu") {
        Token::KeywordModifier(ModifierKeyword::Global)
    } else if res == String::from_str("ju") {
        Token::KeywordModifier(ModifierKeyword::Constant)
    } else if res == String::from_str("pu") {
        Token::KeywordModifier(ModifierKeyword::Private)
    } else if res == String::from_str("ij") {
        Token::KeywordIf
    } else if res == String::from_str("sula") {
        Token::KeywordElse
    } else if res == String::from_str("skr_app") {
        Token::NatCall
    } else if res == String::from_str("io") {
        Token::Bool(true)
    } else if res == String::from_str("no") {
        Token::Bool(false)
    } else if res == String::from_str("ums") {
        Token::KeywordFunction
    } else if res == String::from_str("kat") {
        Token::KeywordClass
    } else if res == String::from_str("ei") {
        Token::KeywordReturn
    } else if res == String::from_str("biuli") {
        Token::KeywordBubbleScope
    } else if res == String::from_str("kodi") {
        Token::KeywordSimpleScope
    } else if res == String::from_str("spoki") {
        Token::KeywordUnusedScope
    } else {
        Token::Identifier(res)
    }
}

// ---------------------
// --- The spec lexer
// ---------------------

/// A positioned token value as the spec lexer produces it: the column is
/// currently always 0.
pub open spec fn tcv(t: TokenView, line: nat) -> TokenContainerView {
    TokenContainerView { token: t, line: line, column: 0 }
}

/// Prepends one produced token to the rest of a scan, keeping an error as it
/// is.
pub open spec fn lex_cons(
    t: TokenContainerView,
    rest: Result<Seq<TokenContainerView>, CustomErrorView>,
) -> Result<Seq<TokenContainerView>, CustomErrorView> {
    match rest {
        Ok(v) => Ok(seq![t] + v),
        Err(e) => Err(e),
    }
}

/// Clamps a scan's end index into `[lo, hi]`, so that the recursion of
/// [`lex_from`] visibly terminates; the bounds lemmas above show the clamp
/// never changes a scan result that is actually used.
pub open spec fn next_pos(j: nat, lo: nat, hi: nat) -> nat {
    if j < lo {
        lo
    } else if j > hi {
        hi
    } else {
        j
    }
}

/// The scanning rules, applied left to right from index `i` with current
/// line `line`: this is the reference model of the lexer.
pub open spec fn lex_from(s: Seq<char>, i: nat, line: nat) -> Result<
    Seq<TokenContainerView>,
    CustomErrorView,
>
    decreases s.len() - i,
{
    if i >= s.len() {
        Ok(Seq::empty())
    } else {
        let c = s[i as int];
        if c == '/' {
            if i + 1 < s.len() && s[i as int + 1] == '/' {
                let j = next_pos(comment_end(s, i + 2), i + 2, s.len());
                lex_cons(tcv(TokenView::Space(SpaceTypes::NewLine), line), lex_from(s, j, line))
            } else {
                lex_cons(tcv(TokenView::Div, line), lex_from(s, i + 1, line))
            }
        } else if is_word_start_spec(c) {
            let j = next_pos(word_end(s, i), i + 1, s.len());
            lex_cons(
                tcv(keyword_token(s.subrange(i as int, j as int)), line),
                lex_from(s, j, line),
            )
        } else if is_digit_spec(c) {
            match num_end(s, i, false) {
                None => Err(
                    CustomErrorView::InvalidFloat("A float can have only one . !"@, line),
                ),
                Some((e, is_float)) => {
                    let j = next_pos(e, i + 1, s.len());
                    let numeral = s.subrange(i as int, j as int);
                    let t = if is_float {
                        TokenView::Float(numeral)
                    } else {
                        TokenView::Int(numeral)
                    };
                    lex_cons(tcv(t, line), lex_from(s, j, line))
                },
            }
        } else if c == ' ' {
            lex_from(s, i + 1, line)
        } else if c == '"' {
            match str_scan(s, i + 1, false) {
                None => Err(CustomErrorView::InvalidString("String not closed"@, line)),
                Some((content, e)) => {
                    let j = next_pos(e, i + 1, s.len());
                    lex_cons(tcv(TokenView::String(content), line), lex_from(s, j, line))
                },
            }
        } else if c == '\n' {
            lex_cons(
                tcv(TokenView::Space(SpaceTypes::NewLine), line + 1),
                lex_from(s, i + 1, line + 1),
            )
        } else if c == '+' {
            lex_cons(tcv(TokenView::Add, line), lex_from(s, i + 1, line))
        } else if c == '-' {
            lex_cons(tcv(TokenView::Sub, line), lex_from(s, i + 1, line))
        } else if c == '*' {
            lex_cons(tcv(TokenView::Mul, line), lex_from(s, i + 1, line))
        } else if c == ':' {
            lex_cons(tcv(TokenView::Inside, line), lex_from(s, i + 1, line))
        } else if c == '(' {
            lex_cons(tcv(TokenView::LeftParenthesis, line), lex_from(s, i + 1, line))
        } else if c == ')' {
            lex_cons(tcv(TokenView::RightParenthesis, line), lex_from(s, i + 1, line))
        } else if c == '{' {
            lex_cons(tcv(TokenView::LeftBrace, line), lex_from(s, i + 1, line))
        } else if c == '}' {
            lex_cons(tcv(TokenView::RightBrace, line), lex_from(s, i + 1, line))
        } else {
            lex_cons(tcv(TokenView::Invalid(seq![c]), line), lex_from(s, i + 1, line))
        }
    }
}

/// What tokenizing a whole source text yields: the scan from the start, on
/// line 1.
pub open spec fn lex(s: Seq<char>) -> Result<Seq<TokenContainerView>, CustomErrorView> {
    lex_from(s, 0, 1)
}

// ---------------------
// --- Exec helpers
// ---------------------

/// Collects the characters of a string slice into a vector, in order.
fn str_to_chars(s: &str) -> (v: Vec<char>)
    ensures
        v@ == s@,
{
    let n = s.unicode_len();
    let mut v: Vec<char> = Vec::new();
    let mut i: usize = 0;
    while i < n
        invariant
            i <= n,
            n == s@.len(),
            v@ == s@.take(i as int),
        decreases n - i,
    {
        let c = s.get_char(i);
        v.push(c);
        proof {
            assert(v@ =~= s@.take(i + 1));
        }
        i += 1;
    }
    proof {
        assert(s@.take(n as int) =~= s@);
    }
    v
}

/// Scans an identifier or keyword whose first character stands at `start`;
/// returns the mapped token and the index of the first character after the
/// word.
fn tokenize_word(chars: &Vec<char>, start: usize) -> (r: (Token, usize))
    requires
        start < chars@.len(),
        is_word_char_spec(chars@[start as int]),
    ensures
        r.1 == word_end(chars@, start as nat),
        start < r.1 <= chars@.len(),
        r.0@ == keyword_token(chars@.subrange(start as int, r.1 as int)),
{
    let ghost s = chars@;
    let mut j: usize = start;
    let mut buf: Vec<char> = Vec::new();
    proof {
        assert(buf@ =~= s.subrange(start as int, start as int));
    }
    while j < chars.len() && is_word_char(chars[j])
        invariant
            start <= j <= s.len(),
            s == chars@,
            buf@ == s.subrange(start as int, j as int),
            word_end(s, start as nat) == word_end(s, j as nat),
        decreases s.len() - j,
    {
        buf.push(chars[j]);
        proof {
            assert(buf@ =~= s.subrange(start as int, j + 1));
        }
        j += 1;
    }
    proof {
        assert(word_end(s, j as nat) == j);
        lemma_word_end_bounds(s, (start + 1) as nat);
        assert(word_end(s, start as nat) == word_end(s, (start + 1) as nat));
    }
    let word = chars_to_string(&buf);
    let t = word_to_token(word);
    (t, j)
}

/// Scans a numeric literal whose first digit stands at `start`: accumulates
/// digits, allows exactly one `.`, and fails with an invalid-float error
/// citing `line` on a second `.`.
fn tokenize_number(chars: &Vec<char>, start: usize, line: usize) -> (r: Result<
    (Token, usize),
    CustomError,
>)
    requires
        start < chars@.len(),
        is_digit_spec(chars@[start as int]),
    ensures
        (match num_end(chars@, start as nat, false) {
            None => r matches Err(e) && e@ == CustomErrorView::InvalidFloat(
                "A float can have only one . !"@,
                line as nat,
            ),
            Some((e, is_float)) => r matches Ok((t, j)) && j == e && start < j <= chars@.len()
                && t@ == (if is_float {
                TokenView::Float(chars@.subrange(start as int, e as int))
            } else {
                TokenView::Int(chars@.subrange(start as int, e as int))
            }),
        }),
{
    let ghost s = chars@;
    let mut j: usize = start;
    let mut seen_dot: bool = false;
    let mut buf: Vec<char> = Vec::new();
    proof {
        assert(buf@ =~= s.subrange(start as int, start as int));
    }
    loop
        invariant
            start <= j <= s.len(),
            s == chars@,
            start < s.len(),
            is_digit_spec(s[start as int]),
            buf@ == s.subrange(start as int, j as int),
            num_end(s, start as nat, false) == num_end(s, j as nat, seen_dot),
            j == start ==> !seen_dot,
        ensures
            num_end(s, start as nat, false) == Some((j as nat, seen_dot)),
            start < j <= s.len(),
            buf@ == s.subrange(start as int, j as int),
            s == chars@,
        decreases s.len() - j,
    {
        if j < chars.len() {
            let c = chars[j];
            if c == '.' {
                if seen_dot {
                    assert(num_end(s, start as nat, false) is None);
                    return Err(
                        CustomError::InvalidFloat(
                            String::from_str("A float can have only one . !"),
                            line,
                        ),
                    );
                }
                seen_dot = true;
                buf.push(c);
                proof {
                    assert(buf@ =~= s.subrange(start as int, j + 1));
                }
                j += 1;
            } else if is_digit(c) {
                buf.push(c);
                proof {
                    assert(buf@ =~= s.subrange(start as int, j + 1));
                }
                j += 1;
            } else {
                break;
            }
        } else {
            break;
        }
    }
    let numeral = chars_to_string(&buf);
    if seen_dot {
        Ok((Token::Float(numeral), j))
    } else {
        Ok((Token::Int(numeral), j))
    }
}

/// Scans a string literal whose content starts at `start` (the index after
/// the opening quote): consumes until an unescaped closing quote, mapping
/// supported escapes; reaching end of input fails with an invalid-string
/// error citing `line`, the line the string started on.
fn tokenize_string(chars: &Vec<char>, start: usize, line: usize) -> (r: Result<
    (Token, usize),
    CustomError,
>)
    requires
        start <= chars@.len(),
    ensures
        (match str_scan(chars@, start as nat, false) {
            None => r matches Err(e) && e@ == CustomErrorView::InvalidString(
                "String not closed"@,
                line as nat,
            ),
            Some((content, e)) => r matches Ok((t, j)) && j == e && start < j <= chars@.len()
                && t@ == TokenView::String(content),
        }),
{
    let ghost s = chars@;
    let mut j: usize = start;
    let mut esc: bool = false;
    let mut buf: Vec<char> = Vec::new();
    proof {
        lemma_str_scan_bounds(s, start as nat, false);
        match str_scan(s, start as nat, false) {
            None => {},
            Some((content, e)) => {
                assert(buf@ + content =~= content);
            },
        }
    }
    while j < chars.len()
        invariant
            start <= j <= s.len(),
            s == chars@,
            (match str_scan(s, j as nat, esc) {
                None => str_scan(s, start as nat, false) is None,
                Some((content, e)) => str_scan(s, start as nat, false) == Some(
                    (buf@ + content, e),
                ) && j < e <= s.len(),
            }),
        decreases s.len() - j,
    {
        proof {
            lemma_str_scan_bounds(s, (j + 1) as nat, false);
            lemma_str_scan_bounds(s, (j + 1) as nat, true);
        }
        let c = chars[j];
        if esc {
            buf.push(escape_char(c));
            proof {
                match str_scan(s, (j + 1) as nat, false) {
                    None => {},
                    Some((content, e)) => {
                        assert(buf@ + content =~= buf@.drop_last() + (seq![
                            escape_char_spec(s[j as int]),
                        ] + content));
                    },
                }
            }
            esc = false;
            j += 1;
        } else if c == '\\' {
            esc = true;
            j += 1;
        } else if c == '"' {
            proof {
                assert(str_scan(s, j as nat, false) == Some((Seq::<char>::empty(), (j + 1) as nat)));
                assert(buf@ + Seq::<char>::empty() =~= buf@);
            }
            let content = chars_to_string(&buf);
            return Ok((Token::String(content), j + 1));
        } else {
            buf.push(c);
            proof {
                match str_scan(s, (j + 1) as nat, false) {
                    None => {},
                    Some((content, e)) => {
                        assert(buf@ + content =~= buf@.drop_last() + (seq![s[j as int]] + content));
                    },
                }
            }
            j += 1;
        }
    }
    proof {
        assert(str_scan(s, j as nat, esc) is None);
    }
    Err(CustomError::InvalidString(String::from_str("String not closed"), line))
}

/// Discards the characters of a line comment starting at `start`, up to and
/// including the next newline; returns the index after it (or the end of the
/// input when no newline follows).
pub fn tokenize_comment_classic(chars: &Vec<char>, start: usize) -> (j: usize)
    requires
        start <= chars@.len(),
    ensures
        j == comment_end(chars@, start as nat),
        start <= j <= chars@.len(),
{
    let ghost s = chars@;
    let mut j: usize = start;
    while j < chars.len()
        invariant
            start <= j <= s.len(),
            s == chars@,
            comment_end(s, start as nat) == comment_end(s, j as nat),
        decreases s.len() - j,
    {
        if chars[j] == '\n' {
            return j + 1;
        }
        j += 1;
    }
    j
}

// ---------------------
// --- The lexer itself
// ---------------------

/// Transfers the main loop's relation one produced token forward.
proof fn lemma_lex_step(
    full: Result<Seq<TokenContainerView>, CustomErrorView>,
    done: Seq<TokenContainerView>,
    t: TokenContainerView,
    cur: Result<Seq<TokenContainerView>, CustomErrorView>,
    next: Result<Seq<TokenContainerView>, CustomErrorView>,
)
    requires
        cur == lex_cons(t, next),
        (match cur {
            Ok(rest) => full == Ok::<_, CustomErrorView>(done + rest),
            Err(e) => full == Err::<Seq<TokenContainerView>, _>(e),
        }),
    ensures
        (match next {
            Ok(rest) => full == Ok::<_, CustomErrorView>((done + seq![t]) + rest),
            Err(e) => full == Err::<Seq<TokenContainerView>, _>(e),
        }),
{
    match next {
        Ok(rest) => {
            assert(done + (seq![t] + rest) =~= (done + seq![t]) + rest);
        },
        Err(_) => {},
    }
}

/// Converts source text into the ordered token sequence that [`lex`]
/// describes, or fails with the lexical error that `lex` yields. Output
/// ordering matches input order; a plain space produces no token; an
/// unrecognized character becomes an `Invalid` token rather than an error.
pub fn tokenize(file: String) -> (r: Result<VecDeque<TokenContainer>, CustomError>)
    requires
        file@.len() < usize::MAX,
    ensures
        (match r {
            Ok(v) => lex(file@) == Ok::<_, CustomErrorView>(token_views(v@)),
            Err(e) => lex(file@) == Err::<Seq<TokenContainerView>, _>(e@),
        }),
{
    let chars = str_to_chars(file.as_str());
    let ghost s = file@;
    let ghost full = lex(s);
    let n = chars.len();
    let mut tokens: VecDeque<TokenContainer> = VecDeque::new();
    let mut line: usize = 1;
    let mut i: usize = 0;
    proof {
        assert(token_views(tokens@) =~= Seq::<TokenContainerView>::empty());
        assert(Seq::<TokenContainerView>::empty() + lex_from(s, 0, 1)->Ok_0 =~= lex_from(
            s,
            0,
            1,
        )->Ok_0);
    }
    while i < n
        invariant
            i <= n,
            n == s.len(),
            s == chars@,
            s == file@,
            n < usize::MAX,
            1 <= line <= 1 + i,
            full == lex(s),
            (match lex_from(s, i as nat, line as nat) {
                Ok(rest) => full == Ok::<_, CustomErrorView>(token_views(tokens@) + rest),
                Err(e) => full == Err::<Seq<TokenContainerView>, _>(e),
            }),
        decreases n - i,
    {
        let ghost done = token_views(tokens@);
        let ghost cur = lex_from(s, i as nat, line as nat);
        let c = chars[i];
        if c == '/' {
            if i + 1 < n && chars[i + 1] == '/' {
                let j = tokenize_comment_classic(&chars, i + 2);
                let ghost t = tcv(TokenView::Space(SpaceTypes::NewLine), line as nat);
                proof {
                    lemma_comment_end_bounds(s, (i + 2) as nat);
                    assert(cur == lex_cons(t, lex_from(s, j as nat, line as nat)));
                    lemma_lex_step(full, done, t, cur, lex_from(s, j as nat, line as nat));
                }
                tokens.push_back(
                    TokenContainer {
                        token: Token::Space(SpaceTypes::NewLine),
                        line: line,
                        column: 0,
                    },
                );
                proof {
                    assert(token_views(tokens@) =~= done + seq![t]);
                }
                i = j;
            } else {
                let ghost t = tcv(TokenView::Div, line as nat);
                proof {
                    assert(cur == lex_cons(t, lex_from(s, (i + 1) as nat, line as nat)));
                    lemma_lex_step(full, done, t, cur, lex_from(s, (i + 1) as nat, line as nat));
                }
                tokens.push_back(TokenContainer { token: Token::Div, line: line, column: 0 });
                proof {
                    assert(token_views(tokens@) =~= done + seq![t]);
                }
                i = i + 1;
            }
        } else if is_word_start(c) {
            let (tok, j) = tokenize_word(&chars, i);
            let ghost t = tcv(tok@, line as nat);
            proof {
                lemma_word_end_bounds(s, i as nat);
                assert(cur == lex_cons(t, lex_from(s, j as nat, line as nat)));
                lemma_lex_step(full, done, t, cur, lex_from(s, j as nat, line as nat));
            }
            tokens.push_back(TokenContainer { token: tok, line: line, column: 0 });
            proof {
                assert(token_views(tokens@) =~= done + seq![t]);
            }
            i = j;
        } else if is_digit(c) {
            match tokenize_number(&chars, i, line) {
                Ok((tok, j)) => {
                    let ghost t = tcv(tok@, line as nat);
                    proof {
                        lemma_num_end_bounds(s, i as nat, false);
                        assert(cur == lex_cons(t, lex_from(s, j as nat, line as nat)));
                        lemma_lex_step(full, done, t, cur, lex_from(s, j as nat, line as nat));
                    }
                    tokens.push_back(TokenContainer { token: tok, line: line, column: 0 });
                    proof {
                        assert(token_views(tokens@) =~= done + seq![t]);
                    }
                    i = j;
                },
                Err(e) => {
                    proof {
                        assert(num_end(s, i as nat, false) is None);
                        assert(lex_from(s, i as nat, line as nat) == Err::<
                            Seq<TokenContainerView>,
                            _,
                        >(e@));
                        assert(full == Err::<Seq<TokenContainerView>, _>(e@));
                    }
                    return Err(e);
                },
            }
        } else if c == ' ' {
            i = i + 1;
        } else if c == '"' {
            match tokenize_string(&chars, i + 1, line) {
                Ok((tok, j)) => {
                    let ghost t = tcv(tok@, line as nat);
                    proof {
                        lemma_str_scan_bounds(s, (i + 1) as nat, false);
                        assert(cur == lex_cons(t, lex_from(s, j as nat, line as nat)));
                        lemma_lex_step(full, done, t, cur, lex_from(s, j as nat, line as nat));
                    }
                    tokens.push_back(TokenContainer { token: tok, line: line, column: 0 });
                    proof {
                        assert(token_views(tokens@) =~= done + seq![t]);
                    }
                    i = j;
                },
                Err(e) => {
                    proof {
                        assert(str_scan(s, (i + 1) as nat, false) is None);
                        assert(lex_from(s, i as nat, line as nat) == Err::<
                            Seq<TokenContainerView>,
                            _,
                        >(e@));
                        assert(full == Err::<Seq<TokenContainerView>, _>(e@));
                    }
                    return Err(e);
                },
            }
        } else if c == '\n' {
            line = line + 1;
            let ghost t = tcv(TokenView::Space(SpaceTypes::NewLine), line as nat);
            proof {
                assert(cur == lex_cons(t, lex_from(s, (i + 1) as nat, line as nat)));
                lemma_lex_step(full, done, t, cur, lex_from(s, (i + 1) as nat, line as nat));
            }
            tokens.push_back(
                TokenContainer { token: Token::Space(SpaceTypes::NewLine), line: line, column: 0 },
            );
            proof {
                assert(token_views(tokens@) =~= done + seq![t]);
            }
            i = i + 1;
        } else {
            let tok = if c == '+' {
                Token::Add
            } else if c == '-' {
                Token::Sub
            } else if c == '*' {
                Token::Mul
            } else if c == ':' {
                Token::Inside
            } else if c == '(' {
                Token::LeftParenthesis
            } else if c == ')' {
                Token::RightParenthesis
            } else if c == '{' {
                Token::LeftBrace
            } else if c == '}' {
                Token::RightBrace
            } else {
                let mut one: Vec<char> = Vec::new();
                one.push(c);
                proof {
                    assert(one@ =~= seq![c]);
                }
                Token::Invalid(chars_to_string(&one))
            };
            let ghost t = tcv(tok@, line as nat);
            proof {
                assert(cur == lex_cons(t, lex_from(s, (i + 1) as nat, line as nat)));
                lemma_lex_step(full, done, t, cur, lex_from(s, (i + 1) as nat, line as nat));
            }
            tokens.push_back(TokenContainer { token: tok, line: line, column: 0 });
            proof {
                assert(token_views(tokens@) =~= done + seq![t]);
            }
            i = i + 1;
        }
    }
    proof {
        assert(lex_from(s, i as nat, line as nat) == Ok::<_, CustomErrorView>(
            Seq::<TokenContainerView>::empty(),
        ));
        assert(token_views(tokens@) + Seq::<TokenContainerView>::empty() =~= token_views(tokens@));
    }
    Ok(tokens)
}

} // verus!

//! The scanner: a cursor over an immutable character sequence with one
//! character of lookahead. Each call to `next_token` skips leading whitespace,
//! classifies the next character(s), and returns exactly one token.
//!
//! Character classes are fixed to ASCII: whitespace is space, tab, newline and
//! carriage return; identifiers start with an ASCII letter and continue with
//! ASCII letters, digits and underscores. An integer literal whose value does
//! not fit in `usize` saturates at `usize::MAX`.

use vstd::prelude::*;
use vstd::string::StrSliceExecFns;
use vstd::string::StringExecFns;
use crate::token::Token;
use crate::token::TokenView;
use crate::token::spec_look_up_ident;

verus! {

/// Whitespace skipped between tokens: space, tab, newline, carriage return.
pub open spec fn spec_is_whitespace_char(c: char) -> bool {
    c == ' ' || c == '\t' || c == '\n' || c == '\r'
}

/// An ASCII letter, the only characters that may start an identifier.
pub open spec fn spec_is_letter(c: char) -> bool {
    ('a' <= c && c <= 'z') || ('A' <= c && c <= 'Z')
}

/// An ASCII decimal digit.
pub open spec fn spec_is_digit(c: char) -> bool {
    '0' <= c && c <= '9'
}

/// A character that may continue an identifier: letter, digit or underscore.
pub open spec fn spec_is_ident_char(c: char) -> bool {
    spec_is_letter(c) || spec_is_digit(c) || c == '_'
}

/// One of the fixed punctuation and operator characters the scanner
/// recognizes directly.
pub open spec fn spec_is_operator_char(c: char) -> bool {
    c == '=' || c == '+' || c == '-' || c == '/' || c == '*' || c == '<' || c == '>' || c == '!'
        || c == ',' || c == ';' || c == '(' || c == ')' || c == '{' || c == '}'
}

/// The first position at or after `i` that does not hold whitespace (or the
/// end of the input, if only whitespace remains).
pub open spec fn skip_ws_from(s: Seq<char>, i: int) -> int
    decreases s.len() - i,
{
    if 0 <= i < s.len() && spec_is_whitespace_char(s[i]) {
        skip_ws_from(s, i + 1)
    } else {
        i
    }
}

/// The first position at or after `i` that does not hold an identifier
/// character: the end of an identifier run starting at `i`.
pub open spec fn ident_end(s: Seq<char>, i: int) -> int
    decreases s.len() - i,
{
    if 0 <= i < s.len() && spec_is_ident_char(s[i]) {
        ident_end(s, i + 1)
    } else {
        i
    }
}

/// The first position at or after `i` that does not hold a decimal digit:
/// the end of a digit run starting at `i`.
pub open spec fn digits_end(s: Seq<char>, i: int) -> int
    decreases s.len() - i,
{
    if 0 <= i < s.len() && spec_is_digit(s[i]) {
        digits_end(s, i + 1)
    } else {
        i
    }
}

/// The numeric value of a decimal digit; characters that are not digits
/// count as zero (contracts only apply this to digit characters).
pub open spec fn digit_val(c: char) -> int {
    if spec_is_digit(c) {
        (c as int) - ('0' as int)
    } else {
        0
    }
}

/// The numeric value of a run of decimal digits, most significant first.
pub open spec fn digits_value(s: Seq<char>) -> int
    decreases s.len(),
{
    if s.len() == 0 {
        0
    } else {
        digits_value(s.drop_last()) * 10 + digit_val(s.last())
    }
}

/// Saturation at the word size: values beyond `usize::MAX` become
/// `usize::MAX`. This is the documented policy for oversized integer
/// literals.
pub open spec fn sat_usize(v: int) -> usize
    recommends
        v >= 0,
{
    if v <= usize::MAX {
        v as usize
    } else {
        usize::MAX
    }
}

/// The token that begins at position `i` (taken to hold no whitespace), and
/// the position just past it: one step of the scanner's dispatch.
pub open spec fn spec_token_at(s: Seq<char>, i: int) -> (TokenView, int)
    recommends
        0 <= i <= s.len(),
{
    if i >= s.len() {
        (TokenView::Eof, i)
    } else if s[i] == '=' {
        if i + 1 < s.len() && s[i + 1] == '=' {
            (TokenView::Equal, i + 2)
        } else {
            (TokenView::Assign, i + 1)
        }
    } else if s[i] == '!' {
        if i + 1 < s.len() && s[i + 1] == '=' {
            (TokenView::NotEqual, i + 2)
        } else {
            (TokenView::Bang, i + 1)
        }
    } else if s[i] == '+' {
        (TokenView::Plus, i + 1)
    } else if s[i] == '-' {
        (TokenView::Minus, i + 1)
    } else if s[i] == '/' {
        (TokenView::Slash, i + 1)
    } else if s[i] == '*' {
        (TokenView::Asterisk, i + 1)
    } else if s[i] == '<' {
        (TokenView::LessThan, i + 1)
    } else if s[i] == '>' {
        (TokenView::GreaterThan, i + 1)
    } else if s[i] == ',' {
        (TokenView::Comma, i + 1)
    } else if s[i] == ';' {
        (TokenView::Semicolon, i + 1)
    } else if s[i] == '(' {
        (TokenView::LeftParen, i + 1)
    } else if s[i] == ')' {
        (TokenView::RightParen, i + 1)
    } else if s[i] == '{' {
        (TokenView::LeftBrace, i + 1)
    } else if s[i] == '}' {
        (TokenView::RightBrace, i + 1)
    } else if spec_is_letter(s[i]) {
        (spec_look_up_ident(s.subrange(i, ident_end(s, i))), ident_end(s, i))
    } else if spec_is_digit(s[i]) {
        (TokenView::Int(sat_usize(digits_value(s.subrange(i, digits_end(s, i))))), digits_end(s, i))
    } else {
        (TokenView::Illegal(s[i]), i + 1)
    }
}

/// What one call to `next_token` does from position `i`: skip whitespace,
/// then scan one token. Returns the token and the cursor just past it.
pub open spec fn spec_next_token(s: Seq<char>, i: int) -> (TokenView, int)
    recommends
        0 <= i <= s.len(),
{
    spec_token_at(s, skip_ws_from(s, i))
}

proof fn lemma_digits_value_nonneg(s: Seq<char>)
    ensures
        digits_value(s) >= 0,
    decreases s.len(),
{
    if s.len() > 0 {
        lemma_digits_value_nonneg(s.drop_last());
    }
}

proof fn lemma_digits_value_step(s: Seq<char>, start: int, i: int)
    requires
        0 <= start <= i < s.len(),
    ensures
        digits_value(s.subrange(start, i + 1)) == digits_value(s.subrange(start, i)) * 10
            + digit_val(s[i]),
{
    let a = s.subrange(start, i + 1);
    assert(a.drop_last() =~= s.subrange(start, i));
    assert(a.last() == s[i]);
}

/// One step of saturating accumulation: appending a digit `d` to a value `v`
/// keeps the saturated value exact below `usize::MAX` and pinned at
/// `usize::MAX` above it. The branch condition is the overflow guard the
/// scanner tests at run time.
proof fn lemma_sat_usize_step(v: int, d: int)
    requires
        v >= 0,
        0 <= d <= 9,
    ensures
        sat_usize(v) <= (usize::MAX - d) / 10 ==> v * 10 + d <= usize::MAX && v == sat_usize(v)
            && sat_usize(v * 10 + d) == sat_usize(v) * 10 + d,
        sat_usize(v) > (usize::MAX - d) / 10 ==> sat_usize(v * 10 + d) == usize::MAX,
{
    let m = usize::MAX as int;
    let q = (m - d) / 10;
    assert(m - d == 10 * q + (m - d) % 10) by {
        vstd::arithmetic::div_mod::lemma_fundamental_div_mod(m - d, 10);
    }
    assert(0 <= (m - d) % 10 < 10) by {
        vstd::arithmetic::div_mod::lemma_mod_bound(m - d, 10);
    }
    if sat_usize(v) <= q {
        assert(v == sat_usize(v));
        assert(v * 10 <= q * 10) by (nonlinear_arith)
            requires 0 <= v <= q,
        ;
    } else {
        if v <= m {
            assert(v * 10 >= (q + 1) * 10) by (nonlinear_arith)
                requires v >= q + 1,
            ;
        } else {
            assert(v * 10 >= v) by (nonlinear_arith)
                requires v >= 0,
            ;
        }
    }
}

proof fn lemma_skip_ws_from_bounds(s: Seq<char>, i: int)
    requires
        0 <= i <= s.len(),
    ensures
        i <= skip_ws_from(s, i) <= s.len(),
    decreases s.len() - i,
{
    if i < s.len() && spec_is_whitespace_char(s[i]) {
        lemma_skip_ws_from_bounds(s, i + 1);
    }
}

proof fn lemma_ident_end_all(s: Seq<char>, i: int)
    requires
        0 <= i <= s.len(),
        forall|k: int| i <= k < s.len() ==> spec_is_ident_char(s[k]),
    ensures
        ident_end(s, i) == s.len(),
    decreases s.len() - i,
{
    if i < s.len() {
        lemma_ident_end_all(s, i + 1);
    }
}

proof fn lemma_digits_end_all(s: Seq<char>, i: int)
    requires
        0 <= i <= s.len(),
        forall|k: int| i <= k < s.len() ==> spec_is_digit(s[k]),
    ensures
        digits_end(s, i) == s.len(),
    decreases s.len() - i,
{
    if i < s.len() {
        lemma_digits_end_all(s, i + 1);
    }
}

/// Law: once the scanner reaches end of input it stays there — whenever a
/// call yields the end-of-input token, every later call yields it again,
/// from the same cursor position.
pub proof fn lemma_end_of_input_stable(s: Seq<char>, i: int)
    requires
        0 <= i <= s.len(),
        spec_next_token(s, i).0 == TokenView::Eof,
    ensures
        spec_next_token(s, spec_next_token(s, i).1) == (TokenView::Eof, spec_next_token(s, i).1),
{
    lemma_skip_ws_from_bounds(s, i);
}

/// Law: a character that is not whitespace, not an identifier character and
/// not one of the recognized punctuation or operator characters scans as one
/// illegal token carrying that character; after it the input is exhausted.
pub proof fn lemma_unrecognized_char_is_illegal(c: char)
    requires
        !spec_is_whitespace_char(c),
        !spec_is_ident_char(c),
        !spec_is_operator_char(c),
    ensures
        spec_next_token(seq![c], 0) == (TokenView::Illegal(c), 1int),
        spec_next_token(seq![c], 1) == (TokenView::Eof, 1int),
{
}

/// Law: a run of decimal digits scans as a single integer literal whose
/// value is the numeric value of the whole run (saturated at `usize::MAX`),
/// with the whole run consumed.
pub proof fn lemma_digit_run_scans_whole(s: Seq<char>)
    requires
        s.len() >= 1,
        forall|k: int| 0 <= k < s.len() ==> spec_is_digit(s[k]),
    ensures
        spec_next_token(s, 0) == (TokenView::Int(sat_usize(digits_value(s))), s.len() as int),
{
    lemma_digits_end_all(s, 0);
    assert(s.subrange(0, s.len() as int) =~= s);
}

/// Law: a maximal identifier-shaped run (a letter first, letters, digits and
/// underscores after) scans as one token: the keyword lookup applied to
/// exactly that run, with the whole run consumed. With
/// [`lemma_non_keyword_is_identifier`] this says that a non-reserved run
/// yields an identifier carrying exactly the run's text.
pub proof fn lemma_identifier_run_scans_whole(s: Seq<char>)
    requires
        s.len() >= 1,
        spec_is_letter(s[0]),
        forall|k: int| 0 <= k < s.len() ==> spec_is_ident_char(s[k]),
    ensures
        spec_next_token(s, 0) == (spec_look_up_ident(s), s.len() as int),
{
    lemma_ident_end_all(s, 0);
    assert(s.subrange(0, s.len() as int) =~= s);
}

/// Law: identifier-shaped text that is not one of the seven reserved
/// spellings classifies as an identifier carrying exactly that text.
pub proof fn lemma_non_keyword_is_identifier(text: Seq<char>)
    requires
        text != "fn"@,
        text != "let"@,
        text != "if"@,
        text != "else"@,
        text != "true"@,
        text != "false"@,
        text != "return"@,
    ensures
        spec_look_up_ident(text) == TokenView::Ident(text),
{
}

/// Law: each of the seven reserved spellings scans as its keyword or boolean
/// token — never as an identifier — and is consumed whole.
pub proof fn lemma_keywords_reclassified()
    ensures
        spec_next_token("fn"@, 0) == (TokenView::Func, 2int),
        spec_next_token("let"@, 0) == (TokenView::Let, 3int),
        spec_next_token("if"@, 0) == (TokenView::If, 2int),
        spec_next_token("else"@, 0) == (TokenView::Else, 4int),
        spec_next_token("true"@, 0) == (TokenView::Bool(true), 4int),
        spec_next_token("false"@, 0) == (TokenView::Bool(false), 5int),
        spec_next_token("return"@, 0) == (TokenView::Return, 6int),
{
    reveal_strlit("fn");
    reveal_strlit("let");
    reveal_strlit("if");
    reveal_strlit("else");
    reveal_strlit("true");
    reveal_strlit("false");
    reveal_strlit("return");
    lemma_identifier_run_scans_whole("fn"@);
    lemma_identifier_run_scans_whole("let"@);
    lemma_identifier_run_scans_whole("if"@);
    lemma_identifier_run_scans_whole("else"@);
    lemma_identifier_run_scans_whole("true"@);
    lemma_identifier_run_scans_whole("false"@);
    lemma_identifier_run_scans_whole("return"@);
}

/// Law: at an `=`, a following `=` makes one equality token consuming both
/// characters; anything else makes one assignment token consuming only the
/// `=` itself.
pub proof fn lemma_assign_vs_equal(s: Seq<char>, i: int)
    requires
        0 <= i < s.len(),
        s[i] == '=',
    ensures
        i + 1 < s.len() && s[i + 1] == '=' ==> spec_next_token(s, i) == (TokenView::Equal, i + 2),
        !(i + 1 < s.len() && s[i + 1] == '=') ==> spec_next_token(s, i) == (
            TokenView::Assign,
            i + 1,
        ),
{
}

/// Law: at a `!`, a following `=` makes one inequality token consuming both
/// characters; anything else makes one bang token consuming only the `!`.
pub proof fn lemma_bang_vs_not_equal(s: Seq<char>, i: int)
    requires
        0 <= i < s.len(),
        s[i] == '!',
    ensures
        i + 1 < s.len() && s[i + 1] == '=' ==> spec_next_token(s, i) == (
            TokenView::NotEqual,
            i + 2,
        ),
        !(i + 1 < s.len() && s[i + 1] == '=') ==> spec_next_token(s, i) == (TokenView::Bang, i + 1),
{
}

/// Law: whitespace is never emitted as a token — a whitespace character
/// under the cursor has no effect on what the next call returns; scanning
/// simply begins past it.
pub proof fn lemma_whitespace_skipped(s: Seq<char>, i: int)
    requires
        0 <= i < s.len(),
        spec_is_whitespace_char(s[i]),
    ensures
        spec_next_token(s, i) == spec_next_token(s, i + 1),
{
}

/// The scanner: an immutable input with a cursor, advanced one token per
/// call.
pub struct Lexer<'a> {
    input: &'a str,
    pos: usize,
    len: usize,
}

impl<'a> Lexer<'a> {
    /// The input as a sequence of characters.
    pub closed spec fn text(&self) -> Seq<char> {
        self.input@
    }

    /// The current cursor position, in characters from the start.
    pub closed spec fn cursor(&self) -> int {
        self.pos as int
    }

    /// Well-formedness: the cursor never runs past the end of the input.
    pub closed spec fn wf(&self) -> bool {
        self.pos <= self.input@.len() && self.len == self.input@.len()
    }

    /// A scanner over `input`, with the cursor at the start.
    pub fn new(input: &'a str) -> (l: Lexer<'a>)
        ensures
            l.wf(),
            l.text() == input@,
            l.cursor() == 0,
    {
        let len = input.unicode_len();
        Lexer { input, pos: 0, len }
    }

    /// Skips leading whitespace, then consumes and returns exactly one token.
    /// Once the input is exhausted this keeps returning `Token::Eof`, call
    /// after call.
    pub fn next_token(&mut self) -> (t: Token)
        requires
            old(self).wf(),
        ensures
            final(self).wf(),
            final(self).text() == old(self).text(),
            t@ == spec_next_token(old(self).text(), old(self).cursor()).0,
            final(self).cursor() == spec_next_token(old(self).text(), old(self).cursor()).1,
    {
        let ghost t0 = old(self).text();
        let ghost j = skip_ws_from(t0, old(self).cursor());
        self.skip_whitespace();
        match self.read_char() {
            Some('=') => match self.peek_char() {
                Some('=') => {
                    self.read_char();
                    Token::Equal
                },
                _ => Token::Assign,
            },
            Some('+') => Token::Plus,
            Some('-') => Token::Minus,
            Some('/') => Token::Slash,
            Some('*') => Token::Asterisk,
            Some('<') => Token::LessThan,
            Some('>') => Token::GreaterThan,
            Some('!') => match self.peek_char() {
                Some('=') => {
                    self.read_char();
                    Token::NotEqual
                },
                _ => Token::Bang,
            },
            Some(',') => Token::Comma,
            Some(';') => Token::Semicolon,
            Some('(') => Token::LeftParen,
            Some(')') => Token::RightParen,
            Some('{') => Token::LeftBrace,
            Some('}') => Token::RightBrace,
            Some(ch) => {
                if ('a' <= ch && ch <= 'z') || ('A' <= ch && ch <= 'Z') {
                    proof {
                        assert(ident_end(t0, j) == ident_end(t0, j + 1));
                    }
                    self.read_identifier(ch)
                } else if '0' <= ch && ch <= '9' {
                    proof {
                        assert(digits_end(t0, j) == digits_end(t0, j + 1));
                    }
                    self.read_integer(ch)
                } else {
                    Token::Illegal(ch)
                }
            },
            None => Token::Eof,
        }
    }

    /// Consumes and returns the next character, or `None` at end of input.
    pub fn read_char(&mut self) -> (r: Option<char>)
        requires
            old(self).wf(),
        ensures
            final(self).wf(),
            final(self).text() == old(self).text(),
            match r {
                Some(c) => old(self).cursor() < old(self).text().len()
                    && c == old(self).text()[old(self).cursor()]
                    && final(self).cursor() == old(self).cursor() + 1,
                None => old(self).cursor() == old(self).text().len()
                    && final(self).cursor() == old(self).cursor(),
            },
    {
        if self.pos < self.len {
            let c = self.input.get_char(self.pos);
            self.pos = self.pos + 1;
            Some(c)
        } else {
            None
        }
    }

    /// Returns the next character without consuming it, or `None` at end of
    /// input.
    pub fn peek_char(&self) -> (r: Option<char>)
        requires
            self.wf(),
        ensures
            match r {
                Some(c) => self.cursor() < self.text().len() && c == self.text()[self.cursor()],
                None => self.cursor() == self.text().len(),
            },
    {
        if self.pos < self.len {
            Some(self.input.get_char(self.pos))
        } else {
            None
        }
    }

    /// Whether `ch` may continue an identifier: an ASCII letter, an ASCII
    /// digit, or an underscore.
    pub fn is_ident_char(ch: char) -> (r: bool)
        ensures
            r == spec_is_ident_char(ch),
    {
        ('a' <= ch && ch <= 'z') || ('A' <= ch && ch <= 'Z') || ('0' <= ch && ch <= '9') || ch
            == '_'
    }

    /// Whether the character under the cursor is whitespace; false at end of
    /// input.
    pub fn peek_is_whitespace(&self) -> (r: bool)
        requires
            self.wf(),
        ensures
            r == (self.cursor() < self.text().len() && spec_is_whitespace_char(
                self.text()[self.cursor()],
            )),
    {
        match self.peek_char() {
            Some(ch) => ch == ' ' || ch == '\t' || ch == '\n' || ch == '\r',
            None => false,
        }
    }

    /// Whether the character under the cursor may continue an identifier;
    /// false at end of input.
    fn peek_is_ident_char(&self) -> (r: bool)
        requires
            self.wf(),
        ensures
            r == (self.cursor() < self.text().len() && spec_is_ident_char(
                self.text()[self.cursor()],
            )),
    {
        match self.peek_char() {
            Some(ch) => Self::is_ident_char(ch),
            None => false,
        }
    }

    /// Whether the character under the cursor is a decimal digit; false at
    /// end of input.
    fn peek_is_digit(&self) -> (r: bool)
        requires
            self.wf(),
        ensures
            r == (self.cursor() < self.text().len() && spec_is_digit(self.text()[self.cursor()])),
    {
        match self.peek_char() {
            Some(ch) => '0' <= ch && ch <= '9',
            None => false,
        }
    }

    /// Consumes the rest of a maximal identifier run whose first character
    /// `ch` was already consumed, and classifies the accumulated text.
    pub fn read_identifier(&mut self, ch: char) -> (t: Token)
        requires
            old(self).wf(),
            0 < old(self).cursor(),
            ch == old(self).text()[old(self).cursor() - 1],
        ensures
            final(self).wf(),
            final(self).text() == old(self).text(),
            final(self).cursor() == ident_end(old(self).text(), old(self).cursor()),
            t@ == spec_look_up_ident(
                old(self).text().subrange(
                    old(self).cursor() - 1,
                    ident_end(old(self).text(), old(self).cursor()),
                ),
            ),
    {
        let ghost t0 = self.text();
        let ghost c0 = self.cursor();
        let start = self.pos - 1;
        while self.peek_is_ident_char()
            invariant
                self.wf(),
                self.text() == t0,
                c0 <= self.cursor(),
                ident_end(t0, self.cursor()) == ident_end(t0, c0),
            decreases t0.len() - self.cursor(),
        {
            self.read_char();
        }
        let ident = self.input.substring_char(start, self.pos);
        Token::look_up_ident(String::from_str(ident))
    }

    /// Consumes the rest of a maximal digit run whose first digit `ch` was
    /// already consumed, and returns its value as an integer literal; a run
    /// whose value does not fit in `usize` saturates at `usize::MAX`.
    pub fn read_integer(&mut self, ch: char) -> (t: Token)
        requires
            old(self).wf(),
            0 < old(self).cursor(),
            ch == old(self).text()[old(self).cursor() - 1],
            spec_is_digit(ch),
        ensures
            final(self).wf(),
            final(self).text() == old(self).text(),
            final(self).cursor() == digits_end(old(self).text(), old(self).cursor()),
            t@ == TokenView::Int(
                sat_usize(
                    digits_value(
                        old(self).text().subrange(
                            old(self).cursor() - 1,
                            digits_end(old(self).text(), old(self).cursor()),
                        ),
                    ),
                ),
            ),
    {
        let ghost t0 = self.text();
        let ghost c0 = self.cursor();
        let ghost start = c0 - 1;
        let mut val: usize = Self::digit_to_value(ch);
        proof {
            let a = t0.subrange(start, c0);
            assert(a.len() == 1);
            assert(a.drop_last() =~= Seq::<char>::empty());
            assert(digits_value(a.drop_last()) == 0);
            assert(a.last() == ch);
            assert(digits_value(a) == digit_val(ch));
            lemma_digits_value_nonneg(a);
        }
        while self.peek_is_digit()
            invariant
                self.wf(),
                self.text() == t0,
                0 < c0 <= self.cursor(),
                start == c0 - 1,
                digits_end(t0, self.cursor()) == digits_end(t0, c0),
                digits_value(t0.subrange(start, self.cursor())) >= 0,
                val == sat_usize(digits_value(t0.subrange(start, self.cursor()))),
            decreases t0.len() - self.cursor(),
        {
            let c = match self.read_char() {
                Some(c) => c,
                None => ch,  // unreachable: the loop condition saw a digit
            };
            let d = Self::digit_to_value(c);
            proof {
                let i = self.cursor() - 1;
                lemma_digits_value_step(t0, start, i);
                lemma_digits_value_nonneg(t0.subrange(start, i + 1));
                lemma_sat_usize_step(digits_value(t0.subrange(start, i)), digit_val(t0[i]));
            }
            if val <= (usize::MAX - d) / 10 {
                val = val * 10 + d;
            } else {
                val = usize::MAX;
            }
        }
        Token::Int(val)
    }

    /// The numeric value of a decimal digit character.
    fn digit_to_value(c: char) -> (d: usize)
        requires
            spec_is_digit(c),
        ensures
            d == digit_val(c),
            0 <= d <= 9,
    {
        (c as u32 - 48) as usize
    }

    /// Advances the cursor past every leading whitespace character.
    pub fn skip_whitespace(&mut self)
        requires
            old(self).wf(),
        ensures
            final(self).wf(),
            final(self).text() == old(self).text(),
            final(self).cursor() == skip_ws_from(old(self).text(), old(self).cursor()),
    {
        let ghost t = self.text();
        let ghost goal = skip_ws_from(t, self.cursor());
        while self.peek_is_whitespace()
            invariant
                self.wf(),
                self.text() == t,
                skip_ws_from(t, self.cursor()) == goal,
            decreases t.len() - self.cursor(),
        {
            self.read_char();
        }
    }
}

} // verus!


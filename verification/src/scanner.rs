use vstd::prelude::*;
use crate::error::{ErrorKind, ErrorView, LoxError};
use crate::numbers::{parse_double, spec_all_digits, spec_is_digit, spec_is_number_lexeme, spec_parse_double};
use crate::token::{Literal, LiteralView, Token, TokenType, TokenView};

verus! {

// The scanner makes one left-to-right pass over the source characters,
// turning them into a token stream terminated by exactly one end-of-input
// token, and collecting the lexical errors it meets on the way.  The
// whole pass is specified by `spec_scan`, a recursive function over the
// character sequence; `Scanner::scan_tokens` is proved to return exactly
// its value.

pub open spec fn spec_is_alpha(c: char) -> bool {
    ('a' <= c && c <= 'z') || ('A' <= c && c <= 'Z')
}

/// The characters that may continue an identifier; the original grammar
/// takes letters and digits, and no underscore.
pub open spec fn spec_is_alnum(c: char) -> bool {
    spec_is_alpha(c) || spec_is_digit(c)
}

/// The first position at or after `from` holding `c`, or the length.
pub open spec fn spec_find_char(src: Seq<char>, from: int, c: char) -> int
    decreases src.len() - from,
{
    if from >= src.len() {
        src.len() as int
    } else if src[from] == c {
        from
    } else {
        spec_find_char(src, from + 1, c)
    }
}

/// The first position at or after `from` not holding a digit, or the length.
pub open spec fn spec_find_non_digit(src: Seq<char>, from: int) -> int
    decreases src.len() - from,
{
    if from >= src.len() {
        src.len() as int
    } else if !spec_is_digit(src[from]) {
        from
    } else {
        spec_find_non_digit(src, from + 1)
    }
}

/// The first position at or after `from` not holding a letter or digit, or
/// the length.
pub open spec fn spec_find_non_alnum(src: Seq<char>, from: int) -> int
    decreases src.len() - from,
{
    if from >= src.len() {
        src.len() as int
    } else if !spec_is_alnum(src[from]) {
        from
    } else {
        spec_find_non_alnum(src, from + 1)
    }
}

/// The first position at or after `from` where a `*/` pair begins, or the
/// length where the comment never closes.
pub open spec fn spec_find_comment_end(src: Seq<char>, from: int) -> int
    decreases src.len() - from,
{
    if from >= src.len() {
        src.len() as int
    } else if src[from] == '*' && from + 1 < src.len() && src[from + 1] == '/' {
        from
    } else {
        spec_find_comment_end(src, from + 1)
    }
}

/// How many newline characters stand in `src[from..to]`.
pub open spec fn spec_count_newlines(src: Seq<char>, from: int, to: int) -> int
    decreases to - from,
{
    if to <= from {
        0
    } else {
        spec_count_newlines(src, from, to - 1) + if src[to - 1] == '\n' {
            1int
        } else {
            0int
        }
    }
}

pub proof fn lemma_find_char(src: Seq<char>, from: int, c: char)
    requires
        0 <= from <= src.len(),
    ensures
        from <= spec_find_char(src, from, c) <= src.len(),
        spec_find_char(src, from, c) < src.len() ==> src[spec_find_char(src, from, c)] == c,
        forall|i: int| from <= i < spec_find_char(src, from, c) ==> src[i] != c,
    decreases src.len() - from,
{
    if from < src.len() && src[from] != c {
        lemma_find_char(src, from + 1, c);
    }
}

pub proof fn lemma_find_non_digit(src: Seq<char>, from: int)
    requires
        0 <= from <= src.len(),
    ensures
        from <= spec_find_non_digit(src, from) <= src.len(),
        spec_find_non_digit(src, from) < src.len() ==> !spec_is_digit(
            src[spec_find_non_digit(src, from)],
        ),
        forall|i: int| from <= i < spec_find_non_digit(src, from) ==> spec_is_digit(src[i]),
    decreases src.len() - from,
{
    if from < src.len() && spec_is_digit(src[from]) {
        lemma_find_non_digit(src, from + 1);
    }
}

pub proof fn lemma_find_non_alnum(src: Seq<char>, from: int)
    requires
        0 <= from <= src.len(),
    ensures
        from <= spec_find_non_alnum(src, from) <= src.len(),
        spec_find_non_alnum(src, from) < src.len() ==> !spec_is_alnum(
            src[spec_find_non_alnum(src, from)],
        ),
        forall|i: int| from <= i < spec_find_non_alnum(src, from) ==> spec_is_alnum(src[i]),
    decreases src.len() - from,
{
    if from < src.len() && spec_is_alnum(src[from]) {
        lemma_find_non_alnum(src, from + 1);
    }
}

pub proof fn lemma_find_comment_end(src: Seq<char>, from: int)
    requires
        0 <= from <= src.len(),
    ensures
        from <= spec_find_comment_end(src, from) <= src.len(),
        spec_find_comment_end(src, from) < src.len() ==> (src[spec_find_comment_end(src, from)]
            == '*' && spec_find_comment_end(src, from) + 1 < src.len() && src[spec_find_comment_end(
            src,
            from,
        ) + 1] == '/'),
        forall|i: int|
            from <= i < spec_find_comment_end(src, from) ==> !(#[trigger] src[i] == '*' && i + 1
                < src.len() && src[i + 1] == '/'),
    decreases src.len() - from,
{
    if from < src.len() && !(src[from] == '*' && from + 1 < src.len() && src[from + 1] == '/') {
        lemma_find_comment_end(src, from + 1);
    }
}

pub proof fn lemma_count_newlines_step(src: Seq<char>, from: int, to: int)
    requires
        from <= to,
    ensures
        spec_count_newlines(src, from, to + 1) == spec_count_newlines(src, from, to) + if src[to]
            == '\n' {
            1int
        } else {
            0int
        },
{
}

pub proof fn lemma_count_newlines_bounds(src: Seq<char>, from: int, to: int)
    ensures
        0 <= spec_count_newlines(src, from, to) <= if to <= from {
            0int
        } else {
            to - from
        },
    decreases to - from,
{
    if to > from {
        lemma_count_newlines_bounds(src, from, to - 1);
    }
}

/// The keyword table: the token kind a reserved word scans to.
pub open spec fn spec_keyword(s: Seq<char>) -> Option<TokenType> {
    if s == "and"@ {
        Some(TokenType::And)
    } else if s == "class"@ {
        Some(TokenType::Class)
    } else if s == "else"@ {
        Some(TokenType::Else)
    } else if s == "false"@ {
        Some(TokenType::False)
    } else if s == "fun"@ {
        Some(TokenType::Fun)
    } else if s == "for"@ {
        Some(TokenType::For)
    } else if s == "if"@ {
        Some(TokenType::If)
    } else if s == "nil"@ {
        Some(TokenType::Nil)
    } else if s == "or"@ {
        Some(TokenType::Or)
    } else if s == "print"@ {
        Some(TokenType::Print)
    } else if s == "return"@ {
        Some(TokenType::Return)
    } else if s == "super"@ {
        Some(TokenType::Super)
    } else if s == "this"@ {
        Some(TokenType::This)
    } else if s == "true"@ {
        Some(TokenType::True)
    } else if s == "var"@ {
        Some(TokenType::Var)
    } else if s == "while"@ {
        Some(TokenType::While)
    } else {
        None
    }
}

/// Looks a scanned word up in the fixed keyword table.
pub fn get_keyword(to_find: &str) -> (r: Option<TokenType>)
    ensures
        r == spec_keyword(to_find@),
{
    let owned = to_find.to_owned();
    if owned == "and".to_owned() {
        Some(TokenType::And)
    } else if owned == "class".to_owned() {
        Some(TokenType::Class)
    } else if owned == "else".to_owned() {
        Some(TokenType::Else)
    } else if owned == "false".to_owned() {
        Some(TokenType::False)
    } else if owned == "fun".to_owned() {
        Some(TokenType::Fun)
    } else if owned == "for".to_owned() {
        Some(TokenType::For)
    } else if owned == "if".to_owned() {
        Some(TokenType::If)
    } else if owned == "nil".to_owned() {
        Some(TokenType::Nil)
    } else if owned == "or".to_owned() {
        Some(TokenType::Or)
    } else if owned == "print".to_owned() {
        Some(TokenType::Print)
    } else if owned == "return".to_owned() {
        Some(TokenType::Return)
    } else if owned == "super".to_owned() {
        Some(TokenType::Super)
    } else if owned == "this".to_owned() {
        Some(TokenType::This)
    } else if owned == "true".to_owned() {
        Some(TokenType::True)
    } else if owned == "var".to_owned() {
        Some(TokenType::Var)
    } else if owned == "while".to_owned() {
        Some(TokenType::While)
    } else {
        None
    }
}

/// The image of one error, as the scanner records it.
pub open spec fn spec_static_error(line: int, message: Seq<char>) -> ErrorView {
    ErrorView { line: line as nat, message, kind: ErrorKind::Static }
}

/// What one dispatch step of the scanner does: where the cursor and the
/// line counter land, and which token and error, if any, come out.
pub ghost struct SpecStep {
    pub pos: int,
    pub line: int,
    pub token: Option<TokenView>,
    pub error: Option<ErrorView>,
}

/// A token without a literal payload covering `src[pos..end]`.
pub open spec fn spec_plain_token(
    kind: TokenType,
    src: Seq<char>,
    pos: int,
    end: int,
    line: int,
) -> TokenView {
    TokenView {
        token_type: kind,
        lexeme: src.subrange(pos, end),
        literal: None,
        line: line as nat,
    }
}

pub open spec fn spec_token_step(
    kind: TokenType,
    src: Seq<char>,
    pos: int,
    end: int,
    line: int,
) -> SpecStep {
    SpecStep {
        pos: end,
        line,
        token: Some(spec_plain_token(kind, src, pos, end, line)),
        error: None,
    }
}

/// An operator that pairs with a following `=` into its two-character form.
pub open spec fn spec_cond_step(
    src: Seq<char>,
    pos: int,
    line: int,
    matched: TokenType,
    unmatched: TokenType,
) -> SpecStep {
    if pos + 1 < src.len() && src[pos + 1] == '=' {
        spec_token_step(matched, src, pos, pos + 2, line)
    } else {
        spec_token_step(unmatched, src, pos, pos + 1, line)
    }
}

/// A `/` starts a line comment, a block comment, or the division operator.
pub open spec fn spec_slash_step(src: Seq<char>, pos: int, line: int) -> SpecStep {
    if pos + 1 < src.len() && src[pos + 1] == '/' {
        SpecStep { pos: spec_find_char(src, pos + 2, '\n'), line, token: None, error: None }
    } else if pos + 1 < src.len() && src[pos + 1] == '*' {
        let e = spec_find_comment_end(src, pos + 2);
        if e < src.len() {
            SpecStep {
                pos: e + 2,
                line: line + spec_count_newlines(src, pos + 2, e),
                token: None,
                error: None,
            }
        } else {
            SpecStep {
                pos: src.len() as int,
                line: line + spec_count_newlines(src, pos + 2, src.len() as int),
                token: None,
                error: Some(spec_static_error(line, "unterminated bulk comment"@)),
            }
        }
    } else {
        spec_token_step(TokenType::Slash, src, pos, pos + 1, line)
    }
}

/// A string literal runs to the closing quote; the lexeme keeps both
/// quotes, the decoded payload is the text between them.  Where the input
/// ends first, only the error is recorded, at the line the cursor had
/// reached; no token comes out, the line counter falls back to the line of
/// the opening quote, and the cursor resets to just past the opening quote
/// so scanning can continue there.
pub open spec fn spec_string_step(src: Seq<char>, pos: int, line: int) -> SpecStep {
    let q = spec_find_char(src, pos + 1, '"');
    if q < src.len() {
        SpecStep {
            pos: q + 1,
            line: line + spec_count_newlines(src, pos + 1, q),
            token: Some(
                TokenView {
                    token_type: TokenType::StrLit,
                    lexeme: src.subrange(pos, q + 1),
                    literal: Some(LiteralView::Text(src.subrange(pos + 1, q))),
                    line: line as nat,
                },
            ),
            error: None,
        }
    } else {
        SpecStep {
            pos: pos + 1,
            line,
            token: None,
            error: Some(
                spec_static_error(
                    line + spec_count_newlines(src, pos + 1, src.len() as int),
                    "unterminated string"@,
                ),
            ),
        }
    }
}

/// A number literal: digits, optionally a point followed by at least one
/// digit; the payload is the nearest double.
pub open spec fn spec_number_step(src: Seq<char>, pos: int, line: int) -> SpecStep {
    let j = spec_find_non_digit(src, pos + 1);
    let end = if j + 1 < src.len() && src[j] == '.' && spec_is_digit(src[j + 1]) {
        spec_find_non_digit(src, j + 1)
    } else {
        j
    };
    let lexeme = src.subrange(pos, end);
    SpecStep {
        pos: end,
        line,
        token: Some(
            TokenView {
                token_type: TokenType::NumLit,
                lexeme,
                literal: Some(LiteralView::Number(spec_parse_double(lexeme).unwrap())),
                line: line as nat,
            },
        ),
        error: None,
    }
}

/// An identifier or keyword: letters and digits from an alphabetic start.
pub open spec fn spec_identifier_step(src: Seq<char>, pos: int, line: int) -> SpecStep {
    let end = spec_find_non_alnum(src, pos + 1);
    let lexeme = src.subrange(pos, end);
    let kind = match spec_keyword(lexeme) {
        Some(k) => k,
        None => TokenType::Identifier,
    };
    spec_token_step(kind, src, pos, end, line)
}

/// One dispatch step of the scanner at `src[pos]`.
pub open spec fn spec_step(src: Seq<char>, pos: int, line: int) -> SpecStep {
    let c = src[pos];
    if c == '(' {
        spec_token_step(TokenType::LeftParen, src, pos, pos + 1, line)
    } else if c == ')' {
        spec_token_step(TokenType::RightParen, src, pos, pos + 1, line)
    } else if c == '{' {
        spec_token_step(TokenType::LeftBrace, src, pos, pos + 1, line)
    } else if c == '}' {
        spec_token_step(TokenType::RightBrace, src, pos, pos + 1, line)
    } else if c == ',' {
        spec_token_step(TokenType::Comma, src, pos, pos + 1, line)
    } else if c == '.' {
        spec_token_step(TokenType::Dot, src, pos, pos + 1, line)
    } else if c == '-' {
        spec_token_step(TokenType::Minus, src, pos, pos + 1, line)
    } else if c == '+' {
        spec_token_step(TokenType::Plus, src, pos, pos + 1, line)
    } else if c == ';' {
        spec_token_step(TokenType::Semicolon, src, pos, pos + 1, line)
    } else if c == '*' {
        spec_token_step(TokenType::Star, src, pos, pos + 1, line)
    } else if c == '!' {
        spec_cond_step(src, pos, line, TokenType::BangEqual, TokenType::Bang)
    } else if c == '=' {
        spec_cond_step(src, pos, line, TokenType::EqualEqual, TokenType::Equal)
    } else if c == '<' {
        spec_cond_step(src, pos, line, TokenType::LessEqual, TokenType::Less)
    } else if c == '>' {
        spec_cond_step(src, pos, line, TokenType::GreaterEqual, TokenType::Greater)
    } else if c == '/' {
        spec_slash_step(src, pos, line)
    } else if c == '\n' {
        SpecStep { pos: pos + 1, line: line + 1, token: None, error: None }
    } else if c == '"' {
        spec_string_step(src, pos, line)
    } else if spec_is_digit(c) {
        spec_number_step(src, pos, line)
    } else if spec_is_alnum(c) {
        spec_identifier_step(src, pos, line)
    } else {
        SpecStep {
            pos: pos + 1,
            line,
            token: None,
            error: Some(spec_static_error(line, "unexpected token: "@ + seq![c])),
        }
    }
}

/// Every step moves the cursor strictly forward and stays inside the text.
pub proof fn lemma_step_advances(src: Seq<char>, pos: int, line: int)
    requires
        0 <= pos < src.len(),
    ensures
        pos < spec_step(src, pos, line).pos <= src.len(),
{
    let c = src[pos];
    if c == '/' {
        if pos + 1 < src.len() && src[pos + 1] == '/' {
            lemma_find_char(src, pos + 2, '\n');
        } else if pos + 1 < src.len() && src[pos + 1] == '*' {
            lemma_find_comment_end(src, pos + 2);
        }
    } else if c == '"' {
        lemma_find_char(src, pos + 1, '"');
    } else if spec_is_digit(c) {
        lemma_find_non_digit(src, pos + 1);
        let j = spec_find_non_digit(src, pos + 1);
        if j + 1 < src.len() && src[j] == '.' && spec_is_digit(src[j + 1]) {
            lemma_find_non_digit(src, j + 1);
        }
    } else if spec_is_alnum(c) {
        lemma_find_non_alnum(src, pos + 1);
    }
}

/// The end-of-input token that closes every scan.
pub open spec fn spec_eof_token(line: int) -> TokenView {
    TokenView { token_type: TokenType::Eof, lexeme: Seq::empty(), literal: None, line: line as nat }
}

pub open spec fn spec_opt_seq<T>(o: Option<T>) -> Seq<T> {
    match o {
        Some(t) => seq![t],
        None => Seq::empty(),
    }
}

/// The whole scan from a cursor position: the tokens and errors the rest of
/// the text yields, ending in exactly one end-of-input token.
pub open spec fn spec_scan(src: Seq<char>, pos: int, line: int) -> (Seq<TokenView>, Seq<ErrorView>)
    decreases src.len() - pos,
{
    if pos < 0 || pos >= src.len() {
        (seq![spec_eof_token(line)], Seq::empty())
    } else {
        let st = spec_step(src, pos, line);
        let next = if pos < st.pos && st.pos <= src.len() {
            st.pos
        } else {
            pos + 1
        };
        let rest = spec_scan(src, next, st.line);
        (spec_opt_seq(st.token) + rest.0, spec_opt_seq(st.error) + rest.1)
    }
}

pub open spec fn views_of_tokens(ts: Seq<Token>) -> Seq<TokenView> {
    ts.map_values(|t: Token| t@)
}

pub open spec fn views_of_errors(es: Seq<LoxError>) -> Seq<ErrorView> {
    es.map_values(|e: LoxError| e@)
}

proof fn lemma_views_tokens_push(ts: Seq<Token>, t: Token)
    ensures
        views_of_tokens(ts.push(t)) == views_of_tokens(ts).push(t@),
{
    assert(views_of_tokens(ts.push(t)) =~= views_of_tokens(ts).push(t@));
}

proof fn lemma_views_errors_push(es: Seq<LoxError>, e: LoxError)
    ensures
        views_of_errors(es.push(e)) == views_of_errors(es).push(e@),
{
    assert(views_of_errors(es.push(e)) =~= views_of_errors(es).push(e@));
}

/// The scanning cursor: where the current lexeme starts, where the next
/// character will be read, and the current 1-based line.
pub struct Cursor {
    pub start: usize,
    pub current: usize,
    pub line: usize,
}

/// The scanner: the source text, its characters, and what has been
/// produced so far.
pub struct Scanner {
    source: String,
    chars: Vec<char>,
    tokens: Vec<Token>,
    cursor: Cursor,
    errors: Vec<LoxError>,
}

impl Scanner {
    /// The characters mirror the source, the cursor stays inside it, and
    /// the line counter never runs ahead of the characters read.
    pub closed spec fn wf(self) -> bool {
        &&& self.chars@ == self.source@
        &&& self.cursor.start <= self.cursor.current
        &&& self.cursor.current <= self.chars@.len()
        &&& 1 <= self.cursor.line
        &&& self.cursor.line <= 1 + self.cursor.current
        &&& self.chars@.len() < usize::MAX
    }

    /// A scanner that has not started yet.
    pub closed spec fn fresh(self) -> bool {
        &&& self.cursor.start == 0
        &&& self.cursor.current == 0
        &&& self.cursor.line == 1
        &&& self.tokens@ == Seq::<Token>::empty()
        &&& self.errors@ == Seq::<LoxError>::empty()
    }

    pub closed spec fn spec_source(self) -> Seq<char> {
        self.source@
    }

    pub fn new(source: String) -> (s: Scanner)
        requires
            source@.len() < usize::MAX,
        ensures
            s.wf(),
            s.fresh(),
            s.spec_source() == source@,
    {
        let n = source.as_str().unicode_len();
        let mut chars: Vec<char> = Vec::new();
        let mut i: usize = 0;
        while i < n
            invariant
                0 <= i <= n,
                n == source@.len(),
                chars@ =~= source@.subrange(0, i as int),
            decreases n - i,
        {
            let c = source.as_str().get_char(i);
            chars.push(c);
            i = i + 1;
        }
        proof {
            assert(chars@ =~= source@);
        }
        Scanner {
            source,
            chars,
            tokens: Vec::new(),
            cursor: Cursor { start: 0, current: 0, line: 1 },
            errors: Vec::new(),
        }
    }

    fn is_at_end(&self) -> (r: bool)
        ensures
            r == (self.cursor.current >= self.chars@.len()),
    {
        self.cursor.current >= self.chars.len()
    }

    fn peek(&self) -> (r: Option<char>)
        ensures
            self.cursor.current < self.chars@.len() ==> r == Some(
                self.chars@[self.cursor.current as int],
            ),
            self.cursor.current >= self.chars@.len() ==> r is None,
    {
        if self.is_at_end() {
            return None;
        }
        Some(self.chars[self.cursor.current])
    }

    fn peek_next(&self) -> (r: char)
        requires
            self.cursor.current < usize::MAX,
        ensures
            self.cursor.current + 1 < self.chars@.len() ==> r == self.chars@[self.cursor.current
                + 1],
            self.cursor.current + 1 >= self.chars@.len() ==> r == '\0',
    {
        if self.cursor.current + 1 >= self.chars.len() {
            return '\0';
        }
        self.chars[self.cursor.current + 1]
    }

    fn advance(&mut self) -> (r: Option<char>)
        requires
            old(self).cursor.current <= old(self).chars@.len(),
            old(self).chars@.len() < usize::MAX,
        ensures
            old(self).cursor.current < old(self).chars@.len() ==> (r == Some(
                old(self).chars@[old(self).cursor.current as int],
            ) && final(self).cursor.current == old(self).cursor.current + 1),
            old(self).cursor.current >= old(self).chars@.len() ==> (r is None
                && final(self).cursor.current == old(self).cursor.current),

            final(self).cursor.start == old(self).cursor.start,
            final(self).cursor.line == old(self).cursor.line,
            final(self).source == old(self).source,
            final(self).chars == old(self).chars,
            final(self).tokens == old(self).tokens,
            final(self).errors == old(self).errors,
    {
        let c = self.peek();
        if c.is_some() {
            self.cursor.current = self.cursor.current + 1;
        }
        c
    }

    fn match_current(&mut self, expected: char) -> (r: bool)
        requires
            old(self).cursor.current <= old(self).chars@.len(),
            old(self).chars@.len() < usize::MAX,
        ensures
            r == (old(self).cursor.current < old(self).chars@.len()
                && old(self).chars@[old(self).cursor.current as int] == expected),
            r ==> final(self).cursor.current == old(self).cursor.current + 1,
            !r ==> final(self).cursor.current == old(self).cursor.current,
            final(self).cursor.start == old(self).cursor.start,
            final(self).cursor.line == old(self).cursor.line,
            final(self).source == old(self).source,
            final(self).chars == old(self).chars,
            final(self).tokens == old(self).tokens,
            final(self).errors == old(self).errors,
    {
        if self.is_at_end() {
            return false;
        }
        match self.peek() {
            Some(c) if c == expected => {
                self.cursor.current = self.cursor.current + 1;
                true
            },
            _ => false,
        }
    }

    /// The text between the lexeme start and the cursor.
    fn get_str_from_current_idx(&self) -> (r: String)
        requires
            self.wf(),
        ensures
            r@ == self.chars@.subrange(self.cursor.start as int, self.cursor.current as int),
    {
        self.source.as_str().substring_char(self.cursor.start, self.cursor.current).to_owned()
    }

    fn add_token(&mut self, token_type: TokenType, literal: Option<Literal>)
        requires
            old(self).wf(),
        ensures
            final(self).wf(),
            views_of_tokens(final(self).tokens@) == views_of_tokens(old(self).tokens@).push(
                TokenView {
                    token_type,
                    lexeme: old(self).chars@.subrange(
                        old(self).cursor.start as int,
                        old(self).cursor.current as int,
                    ),
                    literal: crate::token::view_opt_literal(literal),
                    line: old(self).cursor.line as nat,
                },
            ),
            final(self).cursor == old(self).cursor,
            final(self).source == old(self).source,
            final(self).chars == old(self).chars,
            final(self).errors == old(self).errors,
    {
        let lexeme_str = self.get_str_from_current_idx();
        let t = Token::new(token_type, lexeme_str, literal, self.cursor.line);
        self.tokens.push(t);
        proof {
            lemma_views_tokens_push(old(self).tokens@, t);
        }
    }
}

fn is_digit_char(c: char) -> (r: bool)
    ensures
        r == spec_is_digit(c),
{
    c >= '0' && c <= '9'
}

fn is_alnum_char(c: char) -> (r: bool)
    ensures
        r == spec_is_alnum(c),
{
    (c >= 'a' && c <= 'z') || (c >= 'A' && c <= 'Z') || is_digit_char(c)
}

/// How one dispatch step relates the scanner before it to the scanner
/// after it.
spec fn step_applied(pre: Scanner, post: Scanner, st: SpecStep) -> bool {
    &&& post.cursor.current as int == st.pos
    &&& post.cursor.line as int == st.line
    &&& post.cursor.start == pre.cursor.start
    &&& post.chars@ == pre.chars@
    &&& post.source@ == pre.source@
    &&& views_of_tokens(post.tokens@) == views_of_tokens(pre.tokens@) + spec_opt_seq(st.token)
    &&& views_of_errors(post.errors@) == views_of_errors(pre.errors@) + spec_opt_seq(st.error)
}

impl Scanner {
    fn add_conditional_token(&mut self, expected: char, matched: TokenType, unmatched: TokenType)
        requires
            old(self).wf(),
            old(self).cursor.current == old(self).cursor.start + 1,
            old(self).cursor.start < old(self).chars@.len(),
            expected == '=',
        ensures
            final(self).wf(),
            step_applied(
                *old(self),
                *final(self),
                spec_cond_step(
                    old(self).chars@,
                    old(self).cursor.start as int,
                    old(self).cursor.line as int,
                    matched,
                    unmatched,
                ),
            ),
    {
        let token_type = if self.match_current(expected) {
            matched
        } else {
            unmatched
        };
        self.add_token(token_type, None);
        proof {
            let st = spec_cond_step(
                old(self).chars@,
                old(self).cursor.start as int,
                old(self).cursor.line as int,
                matched,
                unmatched,
            );
            assert(views_of_tokens(self.tokens@) =~= views_of_tokens(old(self).tokens@)
                + spec_opt_seq(st.token));
            assert(views_of_errors(self.errors@) =~= views_of_errors(old(self).errors@)
                + spec_opt_seq(st.error));
        }
    }

    fn handle_string(&mut self)
        requires
            old(self).wf(),
            old(self).cursor.current == old(self).cursor.start + 1,
            old(self).cursor.start < old(self).chars@.len(),
            old(self).chars@[old(self).cursor.start as int] == '"',
        ensures
            final(self).wf(),
            step_applied(
                *old(self),
                *final(self),
                spec_string_step(
                    old(self).chars@,
                    old(self).cursor.start as int,
                    old(self).cursor.line as int,
                ),
            ),
    {
        let ghost src = self.chars@;
        let ghost start = self.cursor.start as int;
        let ghost line0 = self.cursor.line as int;
        let line_before = self.cursor.line;
        loop
            invariant
                self.wf(),
                self.chars@ == src,
                self.cursor.start as int == start,
                self.source == old(self).source,
                self.tokens == old(self).tokens,
                self.errors == old(self).errors,
                start + 1 <= self.cursor.current as int <= src.len(),
                forall|i: int| start + 1 <= i < self.cursor.current as int ==> src[i] != '"',
                self.cursor.line as int == line0 + spec_count_newlines(
                    src,
                    start + 1,
                    self.cursor.current as int,
                ),
                line0 == line_before,
                line0 >= 1,
            ensures
                self.wf(),
                self.chars@ == src,
                self.cursor.start as int == start,
                self.source == old(self).source,
                self.tokens == old(self).tokens,
                self.errors == old(self).errors,
                start + 1 <= self.cursor.current as int <= src.len(),
                forall|i: int| start + 1 <= i < self.cursor.current as int ==> src[i] != '"',
                self.cursor.line as int == line0 + spec_count_newlines(
                    src,
                    start + 1,
                    self.cursor.current as int,
                ),
                self.cursor.current as int == src.len() || src[self.cursor.current as int] == '"',
            decreases src.len() - self.cursor.current,
        {
            if self.is_at_end() {
                break ;
            }
            let c = match self.peek() {
                Some(c) => c,
                None => {
                    proof {
                        assert(false);
                    }
                    return ;
                },
            };
            if c == '"' {
                break ;
            }
            proof {
                lemma_count_newlines_bounds(src, start + 1, self.cursor.current as int);
                lemma_count_newlines_step(src, start + 1, self.cursor.current as int);
            }
            if c == '\n' {
                self.cursor.line = self.cursor.line + 1;
            }
            self.advance();
        }
        let ghost q = spec_find_char(src, start + 1, '"');
        proof {
            lemma_find_char(src, start + 1, '"');
            assert(q == self.cursor.current as int) by {
                if q < self.cursor.current as int {
                    assert(src[q] != '"');
                } else if q > self.cursor.current as int {
                    assert((self.cursor.current as int) < src.len());
                    assert(src[self.cursor.current as int] != '"');
                }
            }
        }
        if !self.is_at_end() {
            // The closing quote.
            self.advance();
            let owned = self.source.as_str().substring_char(
                self.cursor.start + 1,
                self.cursor.current - 1,
            ).to_owned();
            let t = Token::new(
                TokenType::StrLit,
                self.get_str_from_current_idx(),
                Some(Literal::Text(owned)),
                line_before,
            );
            self.tokens.push(t);
            proof {
                lemma_views_tokens_push(old(self).tokens@, t);
                let st = spec_string_step(src, start, line0);
                assert(views_of_tokens(self.tokens@) =~= views_of_tokens(old(self).tokens@)
                    + spec_opt_seq(st.token));
                assert(views_of_errors(self.errors@) =~= views_of_errors(old(self).errors@)
                    + spec_opt_seq(st.error));
            }
        } else {
            // The input ended first: record the error where the cursor
            // stopped, fall back to the opening line, and resume just past
            // the opening quote; no token comes out.
            let e = LoxError::new(self.cursor.line, "unterminated string".to_owned());
            self.errors.push(e);
            proof {
                lemma_views_errors_push(old(self).errors@, e);
            }
            self.cursor.current = self.cursor.start + 1;
            self.cursor.line = line_before;
            proof {
                let st = spec_string_step(src, start, line0);
                assert(views_of_tokens(self.tokens@) =~= views_of_tokens(old(self).tokens@)
                    + spec_opt_seq(st.token));
                assert(views_of_errors(self.errors@) =~= views_of_errors(old(self).errors@)
                    + spec_opt_seq(st.error));
            }
        }
    }

    fn handle_number(&mut self)
        requires
            old(self).wf(),
            old(self).cursor.current == old(self).cursor.start + 1,
            old(self).cursor.start < old(self).chars@.len(),
            spec_is_digit(old(self).chars@[old(self).cursor.start as int]),
        ensures
            final(self).wf(),
            step_applied(
                *old(self),
                *final(self),
                spec_number_step(
                    old(self).chars@,
                    old(self).cursor.start as int,
                    old(self).cursor.line as int,
                ),
            ),
    {
        let ghost src = self.chars@;
        let ghost start = self.cursor.start as int;
        loop
            invariant
                self.wf(),
                self.chars@ == src,
                self.cursor.start as int == start,
                self.cursor.line == old(self).cursor.line,
                self.source == old(self).source,
                self.tokens == old(self).tokens,
                self.errors == old(self).errors,
                start + 1 <= self.cursor.current as int <= src.len(),
                forall|i: int|
                    start + 1 <= i < self.cursor.current as int ==> spec_is_digit(src[i]),
            ensures
                self.wf(),
                self.chars@ == src,
                self.cursor.start as int == start,
                self.cursor.line == old(self).cursor.line,
                self.source == old(self).source,
                self.tokens == old(self).tokens,
                self.errors == old(self).errors,
                start + 1 <= self.cursor.current as int <= src.len(),
                forall|i: int|
                    start + 1 <= i < self.cursor.current as int ==> spec_is_digit(src[i]),
                self.cursor.current as int == src.len() || !spec_is_digit(
                    src[self.cursor.current as int],
                ),
            decreases src.len() - self.cursor.current,
        {
            let c = match self.peek() {
                Some(c) => c,
                None => { break ; },
            };
            if !is_digit_char(c) {
                break ;
            }
            self.advance();
        }
        let ghost j = spec_find_non_digit(src, start + 1);
        proof {
            lemma_find_non_digit(src, start + 1);
            assert(j == self.cursor.current as int) by {
                if j < self.cursor.current as int {
                    assert(spec_is_digit(src[j]));
                } else if j > self.cursor.current as int {
                    assert(spec_is_digit(src[self.cursor.current as int]));
                }
            }
        }
        let dot = match self.peek() {
            Some(c) => c == '.',
            None => false,
        };
        if dot && is_digit_char(self.peek_next()) {
            // The decimal point, then its digits.
            self.advance();
            loop
                invariant
                    self.wf(),
                    self.chars@ == src,
                    self.cursor.start as int == start,
                    self.cursor.line == old(self).cursor.line,
                    self.source == old(self).source,
                    self.tokens == old(self).tokens,
                    self.errors == old(self).errors,
                    j + 1 <= self.cursor.current as int <= src.len(),
                    forall|i: int|
                        j + 1 <= i < self.cursor.current as int ==> spec_is_digit(src[i]),
                ensures
                    self.wf(),
                    self.chars@ == src,
                    self.cursor.start as int == start,
                    self.cursor.line == old(self).cursor.line,
                    self.source == old(self).source,
                    self.tokens == old(self).tokens,
                    self.errors == old(self).errors,
                    j + 1 <= self.cursor.current as int <= src.len(),
                    forall|i: int|
                        j + 1 <= i < self.cursor.current as int ==> spec_is_digit(src[i]),
                    self.cursor.current as int == src.len() || !spec_is_digit(
                        src[self.cursor.current as int],
                    ),
                decreases src.len() - self.cursor.current,
            {
                let c = match self.peek() {
                    Some(c) => c,
                    None => { break ; },
                };
                if !is_digit_char(c) {
                    break ;
                }
                self.advance();
            }
            proof {
                lemma_find_non_digit(src, j + 1);
                let end = spec_find_non_digit(src, j + 1);
                assert(end == self.cursor.current as int) by {
                    if end < self.cursor.current as int {
                        assert(spec_is_digit(src[end]));
                    } else if end > self.cursor.current as int {
                        assert(spec_is_digit(src[self.cursor.current as int]));
                    }
                }
            }
        }
        let ghost end = self.cursor.current as int;
        let lexeme = self.get_str_from_current_idx();
        proof {
            let lex = src.subrange(start, end);
            assert(lexeme@ == lex);
            if end == j {
                assert(spec_all_digits(lex)) by {
                    assert(forall|k: int|
                        0 <= k < lex.len() ==> #[trigger] lex[k] == src[start + k]);
                }
                assert(lex.len() > 0);
            } else {
                let kk = j - start;
                assert(lex[kk] == '.');
                assert(spec_all_digits(lex.subrange(0, kk))) by {
                    assert(forall|k: int|
                        0 <= k < kk ==> #[trigger] lex.subrange(0, kk)[k] == src[start + k]);
                }
                assert(spec_all_digits(lex.subrange(kk + 1, lex.len() as int))) by {
                    assert(forall|k: int|
                        0 <= k < lex.len() - kk - 1 ==> #[trigger] lex.subrange(
                            kk + 1,
                            lex.len() as int,
                        )[k] == src[j + 1 + k]);
                }
                assert(0 < kk < lex.len() - 1);
            }
            assert(spec_is_number_lexeme(lex));
        }
        match parse_double(lexeme.as_str()) {
            Some(bits) => {
                self.add_token(TokenType::NumLit, Some(Literal::Number(bits)));
                proof {
                    let st = spec_number_step(src, start, old(self).cursor.line as int);
                    assert(views_of_tokens(self.tokens@) =~= views_of_tokens(old(self).tokens@)
                        + spec_opt_seq(st.token));
                    assert(views_of_errors(self.errors@) =~= views_of_errors(old(self).errors@)
                        + spec_opt_seq(st.error));
                }
            },
            None => {
                proof {
                    assert(false);
                }
            },
        }
    }

    fn handle_identifier(&mut self)
        requires
            old(self).wf(),
            old(self).cursor.current == old(self).cursor.start + 1,
            old(self).cursor.start < old(self).chars@.len(),
            spec_is_alnum(old(self).chars@[old(self).cursor.start as int]),
        ensures
            final(self).wf(),
            step_applied(
                *old(self),
                *final(self),
                spec_identifier_step(
                    old(self).chars@,
                    old(self).cursor.start as int,
                    old(self).cursor.line as int,
                ),
            ),
    {
        let ghost src = self.chars@;
        let ghost start = self.cursor.start as int;
        loop
            invariant
                self.wf(),
                self.chars@ == src,
                self.cursor.start as int == start,
                self.cursor.line == old(self).cursor.line,
                self.source == old(self).source,
                self.tokens == old(self).tokens,
                self.errors == old(self).errors,
                start + 1 <= self.cursor.current as int <= src.len(),
                forall|i: int|
                    start + 1 <= i < self.cursor.current as int ==> spec_is_alnum(src[i]),
            ensures
                self.wf(),
                self.chars@ == src,
                self.cursor.start as int == start,
                self.cursor.line == old(self).cursor.line,
                self.source == old(self).source,
                self.tokens == old(self).tokens,
                self.errors == old(self).errors,
                start + 1 <= self.cursor.current as int <= src.len(),
                forall|i: int|
                    start + 1 <= i < self.cursor.current as int ==> spec_is_alnum(src[i]),
                self.cursor.current as int == src.len() || !spec_is_alnum(
                    src[self.cursor.current as int],
                ),
            decreases src.len() - self.cursor.current,
        {
            let c = match self.peek() {
                Some(c) => c,
                None => { break ; },
            };
            if !is_alnum_char(c) {
                break ;
            }
            self.advance();
        }
        proof {
            lemma_find_non_alnum(src, start + 1);
            let end = spec_find_non_alnum(src, start + 1);
            assert(end == self.cursor.current as int) by {
                if end < self.cursor.current as int {
                    assert(spec_is_alnum(src[end]));
                } else if end > self.cursor.current as int {
                    assert(spec_is_alnum(src[self.cursor.current as int]));
                }
            }
        }
        let owned_str = self.get_str_from_current_idx();
        let kind = match get_keyword(owned_str.as_str()) {
            Some(token) => token,
            None => TokenType::Identifier,
        };
        self.add_token(kind, None);
        proof {
            let st = spec_identifier_step(src, start, old(self).cursor.line as int);
            assert(views_of_tokens(self.tokens@) =~= views_of_tokens(old(self).tokens@)
                + spec_opt_seq(st.token));
            assert(views_of_errors(self.errors@) =~= views_of_errors(old(self).errors@)
                + spec_opt_seq(st.error));
        }
    }

    fn skip_bulk_comments(&mut self)
        requires
            old(self).wf(),
            old(self).cursor.current == old(self).cursor.start + 2,
            old(self).cursor.start + 2 <= old(self).chars@.len(),
            old(self).chars@[old(self).cursor.start as int] == '/',
            old(self).chars@[old(self).cursor.start as int + 1] == '*',
        ensures
            final(self).wf(),
            step_applied(
                *old(self),
                *final(self),
                spec_slash_step(
                    old(self).chars@,
                    old(self).cursor.start as int,
                    old(self).cursor.line as int,
                ),
            ),
    {
        let ghost src = self.chars@;
        let ghost start = self.cursor.start as int;
        let ghost line0 = self.cursor.line as int;
        let original_line = self.cursor.line;
        loop
            invariant
                self.wf(),
                self.chars@ == src,
                self.cursor.start as int == start,
                self.source == old(self).source,
                self.tokens == old(self).tokens,
                self.errors == old(self).errors,
                start + 2 <= self.cursor.current as int <= src.len(),
                forall|i: int|
                    start + 2 <= i < self.cursor.current as int ==> !(#[trigger] src[i] == '*' && i
                        + 1 < src.len() && src[i + 1] == '/'),
                self.cursor.line as int == line0 + spec_count_newlines(
                    src,
                    start + 2,
                    self.cursor.current as int,
                ),
                original_line as int == line0,
                line0 >= 1,
            ensures
                self.wf(),
                self.chars@ == src,
                self.cursor.start as int == start,
                self.source == old(self).source,
                self.tokens == old(self).tokens,
                self.errors == old(self).errors,
                start + 2 <= self.cursor.current as int <= src.len(),
                forall|i: int|
                    start + 2 <= i < self.cursor.current as int ==> !(#[trigger] src[i] == '*' && i
                        + 1 < src.len() && src[i + 1] == '/'),
                self.cursor.line as int == line0 + spec_count_newlines(
                    src,
                    start + 2,
                    self.cursor.current as int,
                ),
                self.cursor.current as int == src.len() || (src[self.cursor.current as int] == '*'
                    && self.cursor.current as int + 1 < src.len() && src[self.cursor.current as int
                    + 1] == '/'),
            decreases src.len() - self.cursor.current,
        {
            if self.is_at_end() {
                break ;
            }
            let c = match self.peek() {
                Some(c) => c,
                None => {
                    proof {
                        assert(false);
                    }
                    return ;
                },
            };
            if c == '*' && self.peek_next() == '/' {
                break ;
            }
            proof {
                lemma_count_newlines_bounds(src, start + 2, self.cursor.current as int);
                lemma_count_newlines_step(src, start + 2, self.cursor.current as int);
            }
            if c == '\n' {
                self.cursor.line = self.cursor.line + 1;
            }
            self.advance();
        }
        let ghost e = spec_find_comment_end(src, start + 2);
        proof {
            lemma_find_comment_end(src, start + 2);
            assert(e == self.cursor.current as int) by {
                if e < self.cursor.current as int {
                } else if e > self.cursor.current as int {
                    assert((self.cursor.current as int) < src.len());
                    assert(!(src[self.cursor.current as int] == '*' && self.cursor.current as int
                        + 1 < src.len() && src[self.cursor.current as int + 1] == '/'));
                }
            }
        }
        if self.is_at_end() {
            let err = LoxError::new(original_line, "unterminated bulk comment".to_owned());
            self.errors.push(err);
            proof {
                lemma_views_errors_push(old(self).errors@, err);
                let st = spec_slash_step(src, start, line0);
                assert(views_of_errors(self.errors@) =~= views_of_errors(old(self).errors@)
                    + spec_opt_seq(st.error));
                assert(views_of_tokens(self.tokens@) =~= views_of_tokens(old(self).tokens@)
                    + spec_opt_seq(st.token));
            }
            return ;
        }
        // The `*/` pair.
        self.advance();
        self.advance();
        proof {
            let st = spec_slash_step(src, start, line0);
            assert(views_of_tokens(self.tokens@) =~= views_of_tokens(old(self).tokens@)
                + spec_opt_seq(st.token));
            assert(views_of_errors(self.errors@) =~= views_of_errors(old(self).errors@)
                + spec_opt_seq(st.error));
        }
    }

    fn scan_token(&mut self)
        requires
            old(self).wf(),
            old(self).cursor.start == old(self).cursor.current,
            old(self).cursor.current < old(self).chars@.len(),
        ensures
            final(self).wf(),
            step_applied(
                *old(self),
                *final(self),
                spec_step(
                    old(self).chars@,
                    old(self).cursor.current as int,
                    old(self).cursor.line as int,
                ),
            ),
            old(self).cursor.current < final(self).cursor.current,
    {
        proof {
            lemma_step_advances(
                old(self).chars@,
                old(self).cursor.current as int,
                old(self).cursor.line as int,
            );
        }
        let ghost src = self.chars@;
        let ghost start = self.cursor.start as int;
        let ghost line0 = self.cursor.line as int;
        let c = match self.advance() {
            Some(c) => c,
            None => {
                proof {
                    assert(false);
                }
                return ;
            },
        };
        if c == '(' {
            self.add_token(TokenType::LeftParen, None);
            proof {
                self.lemma_simple_step(*old(self), TokenType::LeftParen);
            }
        } else if c == ')' {
            self.add_token(TokenType::RightParen, None);
            proof {
                self.lemma_simple_step(*old(self), TokenType::RightParen);
            }
        } else if c == '{' {
            self.add_token(TokenType::LeftBrace, None);
            proof {
                self.lemma_simple_step(*old(self), TokenType::LeftBrace);
            }
        } else if c == '}' {
            self.add_token(TokenType::RightBrace, None);
            proof {
                self.lemma_simple_step(*old(self), TokenType::RightBrace);
            }
        } else if c == ',' {
            self.add_token(TokenType::Comma, None);
            proof {
                self.lemma_simple_step(*old(self), TokenType::Comma);
            }
        } else if c == '.' {
            self.add_token(TokenType::Dot, None);
            proof {
                self.lemma_simple_step(*old(self), TokenType::Dot);
            }
        } else if c == '-' {
            self.add_token(TokenType::Minus, None);
            proof {
                self.lemma_simple_step(*old(self), TokenType::Minus);
            }
        } else if c == '+' {
            self.add_token(TokenType::Plus, None);
            proof {
                self.lemma_simple_step(*old(self), TokenType::Plus);
            }
        } else if c == ';' {
            self.add_token(TokenType::Semicolon, None);
            proof {
                self.lemma_simple_step(*old(self), TokenType::Semicolon);
            }
        } else if c == '*' {
            self.add_token(TokenType::Star, None);
            proof {
                self.lemma_simple_step(*old(self), TokenType::Star);
            }
        } else if c == '!' {
            self.add_conditional_token('=', TokenType::BangEqual, TokenType::Bang);
        } else if c == '=' {
            self.add_conditional_token('=', TokenType::EqualEqual, TokenType::Equal);
        } else if c == '<' {
            self.add_conditional_token('=', TokenType::LessEqual, TokenType::Less);
        } else if c == '>' {
            self.add_conditional_token('=', TokenType::GreaterEqual, TokenType::Greater);
        } else if c == '/' {
            if self.match_current('/') {
                // A line comment runs to the end of the line.
                loop
                    invariant
                        self.wf(),
                        self.chars@ == src,
                        self.cursor.start as int == start,
                        self.cursor.line == old(self).cursor.line,
                        self.source@ == old(self).source@,
                        self.tokens == old(self).tokens,
                        self.errors == old(self).errors,
                        start + 2 <= self.cursor.current as int <= src.len(),
                        forall|i: int|
                            start + 2 <= i < self.cursor.current as int ==> src[i] != '\n',
                    ensures
                        self.wf(),
                        self.chars@ == src,
                        self.cursor.start as int == start,
                        self.cursor.line == old(self).cursor.line,
                        self.source@ == old(self).source@,
                        self.tokens == old(self).tokens,
                        self.errors == old(self).errors,
                        start + 2 <= self.cursor.current as int <= src.len(),
                        forall|i: int|
                            start + 2 <= i < self.cursor.current as int ==> src[i] != '\n',
                        self.cursor.current as int == src.len() || src[self.cursor.current as int]
                            == '\n',
                    decreases src.len() - self.cursor.current,
                {
                    let p = match self.peek() {
                        Some(p) => p,
                        None => { break ; },
                    };
                    if p == '\n' {
                        break ;
                    }
                    self.advance();
                }
                proof {
                    lemma_find_char(src, start + 2, '\n');
                    let f = spec_find_char(src, start + 2, '\n');
                    assert(f == self.cursor.current as int) by {
                        if f < self.cursor.current as int {
                            assert(src[f] != '\n');
                        } else if f > self.cursor.current as int {
                            assert(src[self.cursor.current as int] != '\n');
                        }
                    }
                    let st = spec_step(src, start, line0);
                    assert(views_of_tokens(self.tokens@) =~= views_of_tokens(old(self).tokens@)
                        + spec_opt_seq(st.token));
                    assert(views_of_errors(self.errors@) =~= views_of_errors(old(self).errors@)
                        + spec_opt_seq(st.error));
                }
            } else if self.match_current('*') {
                self.skip_bulk_comments();
            } else {
                self.add_token(TokenType::Slash, None);
                proof {
                    self.lemma_simple_step(*old(self), TokenType::Slash);
                }
            }
        } else if c == '\n' {
            self.cursor.line = self.cursor.line + 1;
            proof {
                let st = spec_step(src, start, line0);
                assert(views_of_tokens(self.tokens@) =~= views_of_tokens(old(self).tokens@)
                    + spec_opt_seq(st.token));
                assert(views_of_errors(self.errors@) =~= views_of_errors(old(self).errors@)
                    + spec_opt_seq(st.error));
            }
        } else if c == '"' {
            self.handle_string();
        } else if is_digit_char(c) {
            self.handle_number();
        } else if is_alnum_char(c) {
            self.handle_identifier();
        } else {
            let mut msg = String::new();
            msg.append("unexpected token: ");
            let shown = self.source.as_str().substring_char(
                self.cursor.start,
                self.cursor.current,
            );
            msg.append(shown);
            let err = LoxError::new(self.cursor.line, msg);
            self.errors.push(err);
            proof {
                lemma_views_errors_push(old(self).errors@, err);
                let st = spec_step(src, start, line0);
                assert(src.subrange(start, start + 1) =~= seq![c]);
                assert(err@.message =~= "unexpected token: "@ + seq![c]);
                assert(err@ == st.error.unwrap());
                assert(views_of_tokens(self.tokens@) =~= views_of_tokens(old(self).tokens@)
                    + spec_opt_seq(st.token));
                assert(views_of_errors(self.errors@) =~= views_of_errors(old(self).errors@)
                    + spec_opt_seq(st.error));
            }
        }
    }

    /// After a one-character token was added, one dispatch step has been
    /// applied.
    proof fn lemma_simple_step(&self, pre: Scanner, kind: TokenType)
        requires
            pre.wf(),
            pre.cursor.start == pre.cursor.current,
            pre.cursor.current < pre.chars@.len(),
            spec_step(
                pre.chars@,
                pre.cursor.current as int,
                pre.cursor.line as int,
            ) == spec_token_step(
                kind,
                pre.chars@,
                pre.cursor.current as int,
                pre.cursor.current + 1,
                pre.cursor.line as int,
            ),
            self.cursor.current == pre.cursor.current + 1,
            self.cursor.line == pre.cursor.line,
            self.cursor.start == pre.cursor.start,
            self.chars@ == pre.chars@,
            self.source@ == pre.source@,
            views_of_tokens(self.tokens@) == views_of_tokens(pre.tokens@).push(
                TokenView {
                    token_type: kind,
                    lexeme: pre.chars@.subrange(
                        pre.cursor.start as int,
                        pre.cursor.start + 1 as int,
                    ),
                    literal: None,
                    line: pre.cursor.line as nat,
                },
            ),
            self.errors@ == pre.errors@,
        ensures
            step_applied(
                pre,
                *self,
                spec_step(pre.chars@, pre.cursor.current as int, pre.cursor.line as int),
            ),
    {
        let st = spec_step(pre.chars@, pre.cursor.current as int, pre.cursor.line as int);
        assert(views_of_tokens(self.tokens@) =~= views_of_tokens(pre.tokens@) + spec_opt_seq(
            st.token,
        ));
        assert(views_of_errors(self.errors@) =~= views_of_errors(pre.errors@) + spec_opt_seq(
            st.error,
        ));
    }

    /// Scans the whole source: the token stream, closed by one end-of-input
    /// token, and every lexical error met on the way, exactly as `spec_scan`
    /// describes them.
    pub fn scan_tokens(self) -> (r: (Vec<Token>, Vec<LoxError>))
        requires
            self.wf(),
            self.fresh(),
        ensures
            views_of_tokens(r.0@) == spec_scan(self.spec_source(), 0, 1).0,
            views_of_errors(r.1@) == spec_scan(self.spec_source(), 0, 1).1,
    {
        let mut s = self;
        let ghost src = s.chars@;
        proof {
            assert(views_of_tokens(s.tokens@) =~= Seq::<TokenView>::empty());
            assert(views_of_errors(s.errors@) =~= Seq::<ErrorView>::empty());
            assert(Seq::<TokenView>::empty() + spec_scan(src, 0, 1).0 =~= spec_scan(src, 0, 1).0);
            assert(Seq::<ErrorView>::empty() + spec_scan(src, 0, 1).1 =~= spec_scan(src, 0, 1).1);
        }
        while !s.is_at_end()
            invariant
                s.wf(),
                s.chars@ == src,
                src == self.spec_source(),
                spec_scan(src, 0, 1).0 == views_of_tokens(s.tokens@) + spec_scan(
                    src,
                    s.cursor.current as int,
                    s.cursor.line as int,
                ).0,
                spec_scan(src, 0, 1).1 == views_of_errors(s.errors@) + spec_scan(
                    src,
                    s.cursor.current as int,
                    s.cursor.line as int,
                ).1,
            decreases src.len() - s.cursor.current,
        {
            s.cursor.start = s.cursor.current;
            let ghost pre = s;
            s.scan_token();
            proof {
                let pos = pre.cursor.current as int;
                let line = pre.cursor.line as int;
                let st = spec_step(src, pos, line);
                lemma_step_advances(src, pos, line);
                assert(spec_scan(src, pos, line).0 == spec_opt_seq(st.token) + spec_scan(
                    src,
                    st.pos,
                    st.line,
                ).0);
                assert(views_of_tokens(s.tokens@) + spec_scan(src, st.pos, st.line).0
                    =~= views_of_tokens(pre.tokens@) + spec_scan(src, pos, line).0);
                assert(views_of_errors(s.errors@) + spec_scan(src, st.pos, st.line).1
                    =~= views_of_errors(pre.errors@) + spec_scan(src, pos, line).1);
            }
        }
        let ghost endline = s.cursor.line as int;
        let ghost toks0 = s.tokens@;
        let eof = Token::new(TokenType::Eof, String::new(), None, s.cursor.line);
        s.tokens.push(eof);
        proof {
            lemma_views_tokens_push(toks0, eof);
            assert(eof@.lexeme =~= Seq::<char>::empty());
            assert(eof@ == spec_eof_token(endline));
            assert(spec_scan(src, src.len() as int, endline).0 =~= seq![spec_eof_token(endline)]);
            assert(spec_scan(src, src.len() as int, endline).1 =~= Seq::<ErrorView>::empty());
            assert(views_of_tokens(s.tokens@) =~= views_of_tokens(toks0) + seq![
                spec_eof_token(endline),
            ]);
            assert(views_of_tokens(s.tokens@) =~= spec_scan(src, 0, 1).0);
            assert(views_of_errors(s.errors@) + Seq::<ErrorView>::empty() =~= views_of_errors(
                s.errors@,
            ));
            assert(views_of_errors(s.errors@) =~= spec_scan(src, 0, 1).1);
        }
        (s.tokens, s.errors)
    }
}

} // verus!

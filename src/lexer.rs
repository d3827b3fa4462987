use crate::errors::LexicalError;
use crate::text::push_char;
use crate::tokens::{TextSpan, Token, TokenKind};
use vstd::prelude::*;

verus! {

/// The source rebuilt from tokens and the text before each of them: gap 0,
/// lexeme 0, gap 1, lexeme 1, and so on.
pub open spec fn weave(gaps: Seq<Seq<char>>, tokens: Seq<Token>) -> Seq<char>
    decreases tokens.len(),
{
    if tokens.len() == 0 || gaps.len() != tokens.len() {
        Seq::empty()
    } else {
        weave(gaps.drop_last(), tokens.drop_last()) + gaps.last() + tokens.last().span.lexeme@
    }
}

/// The characters of `cs` as a string.
fn chars_to_string(cs: &[char]) -> (r: String)
    ensures
        r@ == cs@,
{
    let mut r = String::new();
    let mut i: usize = 0;
    while i < cs.len()
        invariant
            i <= cs.len(),
            r@ == cs@.subrange(0, i as int),
        decreases cs.len() - i,
    {
        push_char(&mut r, cs[i]);
        assert(cs@.subrange(0, i + 1) =~= cs@.subrange(0, i as int).push(cs@[i as int]));
        i = i + 1;
    }
    assert(cs@.subrange(0, i as int) =~= cs@);
    r
}

pub open spec fn is_digit(c: char) -> bool {
    '0' <= c <= '9'
}

pub open spec fn is_hex(c: char) -> bool {
    is_digit(c) || ('a' <= c <= 'f') || ('A' <= c <= 'F')
}

pub open spec fn is_ident_start(c: char) -> bool {
    ('a' <= c <= 'z') || ('A' <= c <= 'Z') || c == '_'
}

pub open spec fn is_ident_char(c: char) -> bool {
    is_ident_start(c) || is_digit(c)
}

fn digit(c: char) -> (r: bool)
    ensures
        r == is_digit(c),
{
    '0' <= c && c <= '9'
}

fn hex(c: char) -> (r: bool)
    ensures
        r == is_hex(c),
{
    digit(c) || ('a' <= c && c <= 'f') || ('A' <= c && c <= 'F')
}

fn ident_start(c: char) -> (r: bool)
    ensures
        r == is_ident_start(c),
{
    ('a' <= c && c <= 'z') || ('A' <= c && c <= 'Z') || c == '_'
}

fn ident_char(c: char) -> (r: bool)
    ensures
        r == is_ident_char(c),
{
    ident_start(c) || digit(c)
}

/// The end of the run of characters from `j` on that satisfy `is_digit`.
pub open spec fn digits_end_of(src: Seq<char>, j: int) -> int
    decreases src.len() - j,
{
    if 0 <= j < src.len() && is_digit(src[j]) {
        digits_end_of(src, j + 1)
    } else {
        j
    }
}

/// The end of the run of identifier characters from `j` on.
pub open spec fn ident_end_of(src: Seq<char>, j: int) -> int
    decreases src.len() - j,
{
    if 0 <= j < src.len() && is_ident_char(src[j]) {
        ident_end_of(src, j + 1)
    } else {
        j
    }
}

/// Keywords, type names, booleans and pad intrinsics with their kinds.
pub open spec fn word_table() -> Seq<(Seq<char>, TokenKind)> {
    seq![
        ("let"@, TokenKind::Let),
        ("fun"@, TokenKind::Fun),
        ("if"@, TokenKind::If),
        ("else"@, TokenKind::Else),
        ("for"@, TokenKind::For),
        ("while"@, TokenKind::While),
        ("return"@, TokenKind::Return),
        ("as"@, TokenKind::As),
        ("and"@, TokenKind::And),
        ("or"@, TokenKind::Or),
        ("not"@, TokenKind::Not),
        ("true"@, TokenKind::BoolLiteral),
        ("false"@, TokenKind::BoolLiteral),
        ("int"@, TokenKind::Type),
        ("float"@, TokenKind::Type),
        ("bool"@, TokenKind::Type),
        ("colour"@, TokenKind::Type),
        ("__print"@, TokenKind::PadPrint),
        ("__delay"@, TokenKind::PadDelay),
        ("__width"@, TokenKind::PadWidth),
        ("__height"@, TokenKind::PadHeight),
        ("__read"@, TokenKind::PadRead),
        ("__randi"@, TokenKind::PadRandI),
        ("__write"@, TokenKind::PadWrite),
        ("__write_box"@, TokenKind::PadWriteBox),
        ("__clear"@, TokenKind::PadClear),
    ]
}

/// The kind of the first entry of the table, from `i` on, for the word `w`;
/// a word in no entry is an identifier.
pub open spec fn word_kind_of(w: Seq<char>, i: int) -> TokenKind
    decreases word_table().len() - i,
{
    if i < 0 || i >= word_table().len() {
        TokenKind::Identifier
    } else if word_table()[i].0 == w {
        word_table()[i].1
    } else {
        word_kind_of(w, i + 1)
    }
}

/// Two-character operators (preferred over their one-character prefixes).
pub open spec fn two_char_kind(c: char, next: char) -> Option<TokenKind> {
    if next == '=' {
        if c == '=' {
            Some(TokenKind::EqEq)
        } else if c == '!' {
            Some(TokenKind::NotEqual)
        } else if c == '<' {
            Some(TokenKind::LessThanEqual)
        } else if c == '>' {
            Some(TokenKind::GreaterThanEqual)
        } else {
            None
        }
    } else if c == '-' && next == '>' {
        Some(TokenKind::Arrow)
    } else {
        None
    }
}

/// One-character punctuation and operators.
pub open spec fn one_char_kind(c: char) -> Option<TokenKind> {
    if c == '(' {
        Some(TokenKind::LParen)
    } else if c == ')' {
        Some(TokenKind::RParen)
    } else if c == '{' {
        Some(TokenKind::LBrace)
    } else if c == '}' {
        Some(TokenKind::RBrace)
    } else if c == ',' {
        Some(TokenKind::Comma)
    } else if c == ';' {
        Some(TokenKind::Semicolon)
    } else if c == ':' {
        Some(TokenKind::Colon)
    } else if c == '+' {
        Some(TokenKind::Plus)
    } else if c == '-' {
        Some(TokenKind::Minus)
    } else if c == '*' {
        Some(TokenKind::Multiply)
    } else if c == '/' {
        Some(TokenKind::Divide)
    } else if c == '<' {
        Some(TokenKind::LessThan)
    } else if c == '>' {
        Some(TokenKind::GreaterThan)
    } else if c == '=' {
        Some(TokenKind::Equals)
    } else {
        None
    }
}

/// The character after `i`, or NUL past the end.
pub open spec fn next_char(src: Seq<char>, i: int) -> char {
    if i + 1 < src.len() {
        src[i + 1]
    } else {
        '\0'
    }
}

/// The longest token starting at `i`: its end and kind, or `None` where no
/// token starts there.
pub open spec fn scan(src: Seq<char>, i: int) -> Option<(int, TokenKind)> {
    let c = src[i];
    if is_ident_start(c) {
        let j = ident_end_of(src, i + 1);
        Some((j, word_kind_of(src.subrange(i, j), 0)))
    } else if is_digit(c) {
        let j = digits_end_of(src, i);
        if j + 1 < src.len() && src[j] == '.' && is_digit(src[j + 1]) {
            Some((digits_end_of(src, j + 1), TokenKind::FloatLiteral))
        } else {
            Some((j, TokenKind::IntLiteral))
        }
    } else if c == '#' {
        if i + 6 < src.len() && forall|k: int| 1 <= k <= 6 ==> #[trigger] is_hex(src[i + k]) {
            Some((i + 7, TokenKind::ColourLiteral))
        } else {
            None
        }
    } else {
        match two_char_kind(c, next_char(src, i)) {
            Some(k) => Some((i + 2, k)),
            None => match one_char_kind(c) {
                Some(k) => Some((i + 1, k)),
                None => None,
            },
        }
    }
}

/// The end of a line comment whose text starts at `j`.
pub open spec fn line_comment_end(src: Seq<char>, j: int) -> int
    decreases src.len() - j,
{
    if 0 <= j < src.len() && src[j] != '\n' {
        line_comment_end(src, j + 1)
    } else {
        j
    }
}

/// Skips a block comment body from `j`: whether it was closed, and the
/// position, line and column after it.
pub open spec fn block_skip(src: Seq<char>, j: int, line: nat, col: nat) -> (bool, int, nat, nat)
    decreases src.len() - j,
{
    if j < 0 || j >= src.len() {
        (false, j, line, col)
    } else if src[j] == '*' && j + 1 < src.len() && src[j + 1] == '/' {
        (true, j + 2, line, col + 2)
    } else if src[j] == '\n' {
        block_skip(src, j + 1, line + 1, 1)
    } else {
        block_skip(src, j + 1, line, col + 1)
    }
}

/// Coordinates and text of a span.
pub struct SpanView {
    pub from_line: nat,
    pub from_col: nat,
    pub to_line: nat,
    pub to_col: nat,
    pub lexeme: Seq<char>,
}

pub open spec fn span_view(s: TextSpan) -> SpanView {
    SpanView {
        from_line: s.from_line as nat,
        from_col: s.from_col as nat,
        to_line: s.to_line as nat,
        to_col: s.to_col as nat,
        lexeme: s.lexeme@,
    }
}

pub open spec fn token_view(t: Token) -> (TokenKind, SpanView) {
    (t.kind, span_view(t.span))
}

pub open spec fn error_view(e: LexicalError) -> SpanView {
    match e {
        LexicalError::InvalidCharacter(s) => span_view(s),
    }
}

/// The lexer's progress: position, line and column, and what was found.
pub struct LexState {
    pub pos: int,
    pub line: nat,
    pub col: nat,
    pub tokens: Seq<(TokenKind, SpanView)>,
    pub errors: Seq<SpanView>,
}

/// One step of the lexer at `st.pos`: a blank, a comment, a token or an
/// invalid character.
pub open spec fn lex_step(src: Seq<char>, st: LexState) -> LexState {
    let pos = st.pos;
    let c = src[pos];
    let next = next_char(src, pos);
    if c == '\n' {
        LexState { pos: pos + 1, line: st.line + 1, col: 1, tokens: st.tokens, errors: st.errors }
    } else if c == ' ' || c == '\t' || c == '\r' {
        LexState { pos: pos + 1, line: st.line, col: st.col + 1, tokens: st.tokens, errors: st.errors }
    } else if c == '/' && next == '/' {
        let e = line_comment_end(src, pos + 2);
        LexState { pos: e, line: st.line, col: (st.col + (e - pos)) as nat, tokens: st.tokens, errors: st.errors }
    } else if c == '/' && next == '*' {
        let (closed, p, l, cl) = block_skip(src, pos + 2, st.line, st.col + 2);
        LexState {
            pos: p,
            line: l,
            col: cl,
            tokens: st.tokens,
            errors: if closed {
                st.errors
            } else {
                st.errors.push(SpanView { from_line: st.line, from_col: st.col, to_line: l, to_col: cl, lexeme: "/*"@ })
            },
        }
    } else {
        match scan(src, pos) {
            Some((end, kind)) => LexState {
                pos: end,
                line: st.line,
                col: (st.col + (end - pos)) as nat,
                tokens: st.tokens.push(
                    (
                        kind,
                        SpanView {
                            from_line: st.line,
                            from_col: st.col,
                            to_line: st.line,
                            to_col: (st.col + (end - pos) - 1) as nat,
                            lexeme: src.subrange(pos, end),
                        },
                    ),
                ),
                errors: st.errors,
            },
            None => LexState {
                pos: pos + 1,
                line: st.line,
                col: st.col + 1,
                tokens: st.tokens,
                errors: st.errors.push(
                    SpanView {
                        from_line: st.line,
                        from_col: st.col,
                        to_line: st.line,
                        to_col: st.col,
                        lexeme: src.subrange(pos, pos + 1),
                    },
                ),
            },
        }
    }
}

/// The lexer run from `st` to the end of the source.
pub open spec fn lex_from(src: Seq<char>, st: LexState) -> LexState
    decreases src.len() - st.pos,
{
    if st.pos < 0 || st.pos >= src.len() {
        st
    } else {
        let nx = lex_step(src, st);
        if nx.pos <= st.pos || nx.pos > src.len() {
            st
        } else {
            lex_from(src, nx)
        }
    }
}

/// The tokenization of `src`: the tokens then `EndOfFile`, or every
/// invalid character and unterminated comment.
pub open spec fn lex_spec(src: Seq<char>) -> Result<Seq<(TokenKind, SpanView)>, Seq<SpanView>> {
    let fin = lex_from(src, LexState { pos: 0, line: 1, col: 1, tokens: Seq::empty(), errors: Seq::empty() });
    if fin.errors.len() > 0 {
        Err(fin.errors)
    } else {
        Ok(
            fin.tokens.push(
                (
                    TokenKind::EndOfFile,
                    SpanView {
                        from_line: fin.line,
                        from_col: fin.col,
                        to_line: fin.line,
                        to_col: fin.col,
                        lexeme: Seq::empty(),
                    },
                ),
            ),
        )
    }
}

/// The end of the run of digits starting at `i`.
fn digits_end(src: &Vec<char>, i: usize) -> (r: usize)
    requires
        i <= src.len(),
    ensures
        r == digits_end_of(src@, i as int),
        i <= r <= src.len(),
{
    let mut j = i;
    while j < src.len() && digit(src[j])
        invariant
            i <= j <= src.len(),
            digits_end_of(src@, i as int) == digits_end_of(src@, j as int),
        decreases src.len() - j,
    {
        j = j + 1;
    }
    j
}

/// The kind of a word: a keyword, a type name, a boolean, a pad intrinsic
/// or else an identifier.
fn word_kind(w: &String) -> (r: TokenKind)
    ensures
        r == word_kind_of(w@, 0),
{
    let words = vec![
        ("let", TokenKind::Let),
        ("fun", TokenKind::Fun),
        ("if", TokenKind::If),
        ("else", TokenKind::Else),
        ("for", TokenKind::For),
        ("while", TokenKind::While),
        ("return", TokenKind::Return),
        ("as", TokenKind::As),
        ("and", TokenKind::And),
        ("or", TokenKind::Or),
        ("not", TokenKind::Not),
        ("true", TokenKind::BoolLiteral),
        ("false", TokenKind::BoolLiteral),
        ("int", TokenKind::Type),
        ("float", TokenKind::Type),
        ("bool", TokenKind::Type),
        ("colour", TokenKind::Type),
        ("__print", TokenKind::PadPrint),
        ("__delay", TokenKind::PadDelay),
        ("__width", TokenKind::PadWidth),
        ("__height", TokenKind::PadHeight),
        ("__read", TokenKind::PadRead),
        ("__randi", TokenKind::PadRandI),
        ("__write", TokenKind::PadWrite),
        ("__write_box", TokenKind::PadWriteBox),
        ("__clear", TokenKind::PadClear),
    ];
    assert(words@.map_values(|p: (&str, TokenKind)| (p.0@, p.1)) =~= word_table());
    let mut i: usize = 0;
    while i < words.len()
        invariant
            i <= words.len(),
            words@.map_values(|p: (&str, TokenKind)| (p.0@, p.1)) == word_table(),
            word_kind_of(w@, 0) == word_kind_of(w@, i as int),
        decreases words.len() - i,
    {
        assert(word_table()[i as int] == (words@[i as int].0@, words@[i as int].1));
        if *w == words[i].0.to_owned() {
            return words[i].1;
        }
        i = i + 1;
    }
    TokenKind::Identifier
}

fn two_char(c: char, next: char) -> (r: Option<TokenKind>)
    ensures
        r == two_char_kind(c, next),
{
    if next == '=' {
        if c == '=' {
            Some(TokenKind::EqEq)
        } else if c == '!' {
            Some(TokenKind::NotEqual)
        } else if c == '<' {
            Some(TokenKind::LessThanEqual)
        } else if c == '>' {
            Some(TokenKind::GreaterThanEqual)
        } else {
            None
        }
    } else if c == '-' && next == '>' {
        Some(TokenKind::Arrow)
    } else {
        None
    }
}

fn one_char(c: char) -> (r: Option<TokenKind>)
    ensures
        r == one_char_kind(c),
{
    if c == '(' {
        Some(TokenKind::LParen)
    } else if c == ')' {
        Some(TokenKind::RParen)
    } else if c == '{' {
        Some(TokenKind::LBrace)
    } else if c == '}' {
        Some(TokenKind::RBrace)
    } else if c == ',' {
        Some(TokenKind::Comma)
    } else if c == ';' {
        Some(TokenKind::Semicolon)
    } else if c == ':' {
        Some(TokenKind::Colon)
    } else if c == '+' {
        Some(TokenKind::Plus)
    } else if c == '-' {
        Some(TokenKind::Minus)
    } else if c == '*' {
        Some(TokenKind::Multiply)
    } else if c == '/' {
        Some(TokenKind::Divide)
    } else if c == '<' {
        Some(TokenKind::LessThan)
    } else if c == '>' {
        Some(TokenKind::GreaterThan)
    } else if c == '=' {
        Some(TokenKind::Equals)
    } else {
        None
    }
}

/// The longest token that starts at `i`: where it ends and its kind, or
/// `None` where no token starts there.
fn scan_token(src: &Vec<char>, i: usize) -> (r: Option<(usize, TokenKind)>)
    requires
        i < src.len(),
    ensures
        match scan(src@, i as int) {
            Some((end, kind)) => r == Some((end as usize, kind)) && i < end <= src.len(),
            None => r is None,
        },
{
    let c = src[i];
    let next = if src.len() - i > 1 {
        src[i + 1]
    } else {
        '\0'
    };
    if ident_start(c) {
        let mut j = i + 1;
        while j < src.len() && ident_char(src[j])
            invariant
                i < j <= src.len(),
                ident_end_of(src@, i + 1) == ident_end_of(src@, j as int),
            decreases src.len() - j,
        {
            j = j + 1;
        }
        let w = chars_to_string(&src.as_slice()[i..j]);
        return Some((j, word_kind(&w)));
    }
    if digit(c) {
        let j = digits_end(src, i + 1);
        assert(digits_end_of(src@, i as int) == digits_end_of(src@, i + 1));
        if src.len() - j > 1 && src[j] == '.' && digit(src[j + 1]) {
            let e = digits_end(src, j + 1);
            return Some((e, TokenKind::FloatLiteral));
        }
        return Some((j, TokenKind::IntLiteral));
    }
    if c == '#' {
        if src.len() - i > 6 {
            let mut k: usize = 1;
            while k <= 6 && hex(src[i + k])
                invariant
                    1 <= k <= 7,
                    i + 6 < src.len(),
                    forall|m: int| 1 <= m < k ==> #[trigger] is_hex(src@[i + m]),
                decreases 7 - k,
            {
                k = k + 1;
            }
            if k == 7 {
                return Some((i + 7, TokenKind::ColourLiteral));
            }
            assert(!is_hex(src@[i + k]));
        }
        return None;
    }
    match two_char(c, next) {
        Some(k) => {
            return Some((i + 2, k));
        },
        None => {},
    }
    match one_char(c) {
        Some(k) => Some((i + 1, k)),
        None => None,
    }
}

proof fn lemma_weave_push(gaps: Seq<Seq<char>>, tokens: Seq<Token>, g: Seq<char>, t: Token)
    requires
        gaps.len() == tokens.len(),
    ensures
        weave(gaps.push(g), tokens.push(t)) == weave(gaps, tokens) + g + t.span.lexeme@,
{
    assert(gaps.push(g).drop_last() =~= gaps);
    assert(tokens.push(t).drop_last() =~= tokens);
}

/// The lexer state the executable loop stands for.
pub open spec fn state_of(pos: usize, line: usize, col: usize, tokens: Seq<Token>, errors: Seq<LexicalError>) -> LexState {
    LexState {
        pos: pos as int,
        line: line as nat,
        col: col as nat,
        tokens: tokens.map_values(|t: Token| token_view(t)),
        errors: errors.map_values(|e: LexicalError| error_view(e)),
    }
}

/// Turns source text into tokens as `lex_spec` states: maximal munch,
/// keywords by exact lexeme, blanks and comments skipped, `EndOfFile` last.
/// Characters that start no token are all reported, each skipped in turn,
/// as is an unterminated block comment. The lexemes, each preceded by the
/// text skipped before it, rebuild the source.
pub fn lex(source: &Vec<char>) -> (r: Result<Vec<Token>, Vec<LexicalError>>)
    requires
        source.len() < usize::MAX,
    ensures
        match lex_spec(source@) {
            Ok(ts) => r matches Ok(v) && v@.map_values(|t: Token| token_view(t)) == ts,
            Err(es) => r matches Err(v) && v@.map_values(|e: LexicalError| error_view(e)) == es,
        },
        r matches Ok(ts) ==> ts.len() > 0 && ts@.last().kind == TokenKind::EndOfFile
            && ts@.last().span.lexeme@.len() == 0 && exists|gaps: Seq<Seq<char>>|
            gaps.len() == ts.len() && #[trigger] weave(gaps, ts@) == source@,
        r matches Err(es) ==> es.len() > 0,
{
    let ghost src = source@;
    let ghost start = LexState { pos: 0, line: 1, col: 1, tokens: Seq::empty(), errors: Seq::empty() };
    let n = source.len();
    let mut pos: usize = 0;
    let mut line: usize = 1;
    let mut col: usize = 1;
    let mut tokens: Vec<Token> = Vec::new();
    let mut errors: Vec<LexicalError> = Vec::new();
    let ghost mut gaps: Seq<Seq<char>> = Seq::empty();
    let ghost mut gap_start: int = 0;
    assert(weave(gaps, tokens@) =~= source@.subrange(0, 0));
    assert(tokens@.map_values(|t: Token| token_view(t)) =~= Seq::<(TokenKind, SpanView)>::empty());
    assert(errors@.map_values(|e: LexicalError| error_view(e)) =~= Seq::<SpanView>::empty());
    assert(state_of(pos, line, col, tokens@, errors@) =~= start);
    while pos < n
        invariant
            pos <= n,
            n == source.len(),
            src == source@,
            n < usize::MAX,
            0 <= gap_start <= pos,
            gaps.len() == tokens.len(),
            weave(gaps, tokens@) == source@.subrange(0, gap_start),
            line <= pos + 1,
            col <= pos + 1,
            lex_from(src, start) == lex_from(src, state_of(pos, line, col, tokens@, errors@)),
        decreases n - pos,
    {
        let ghost entry = pos;
        let ghost before = state_of(pos, line, col, tokens@, errors@);
        let c = source[pos];
        let next = if n - pos > 1 {
            source[pos + 1]
        } else {
            '\0'
        };
        assert(next == next_char(src, pos as int));
        if c == '\n' {
            pos = pos + 1;
            line = line + 1;
            col = 1;
        } else if c == ' ' || c == '\t' || c == '\r' {
            pos = pos + 1;
            col = col + 1;
        } else if c == '/' && next == '/' {
            let ghost col0 = col;
            pos = pos + 2;
            col = col + 2;
            while pos < n && source[pos] != '\n'
                invariant
                    pos <= n,
                    n == source.len(),
                    src == source@,
                    n < usize::MAX,
                    entry < pos,
                    gap_start <= pos,
                    line <= pos + 1,
                    col <= pos + 1,
                    col == col0 + (pos - entry),
                    line_comment_end(src, entry + 2) == line_comment_end(src, pos as int),
                decreases n - pos,
            {
                pos = pos + 1;
                col = col + 1;
            }
        } else if c == '/' && next == '*' {
            let from_line = line;
            let from_col = col;
            pos = pos + 2;
            col = col + 2;
            let mut closed = false;
            while pos < n && !closed
                invariant
                    pos <= n,
                    n == source.len(),
                    src == source@,
                    n < usize::MAX,
                    entry < pos,
                    gap_start <= pos,
                    line <= pos + 1,
                    col <= pos + 1,
                    block_skip(src, entry + 2, from_line as nat, (from_col + 2) as nat) == if closed {
                        (true, pos as int, line as nat, col as nat)
                    } else {
                        block_skip(src, pos as int, line as nat, col as nat)
                    },
                decreases n - pos,
            {
                if source[pos] == '*' && n - pos > 1 && source[pos + 1] == '/' {
                    closed = true;
                    pos = pos + 2;
                    col = col + 2;
                } else if source[pos] == '\n' {
                    pos = pos + 1;
                    line = line + 1;
                    col = 1;
                } else {
                    pos = pos + 1;
                    col = col + 1;
                }
            }
            if !closed {
                let ghost old_errors = errors@;
                errors.push(
                    LexicalError::InvalidCharacter(TextSpan::new(from_line, from_col, line, col, "/*")),
                );
                assert(errors@.map_values(|e: LexicalError| error_view(e)) =~= old_errors.map_values(
                    |e: LexicalError| error_view(e),
                ).push(
                    SpanView {
                        from_line: from_line as nat,
                        from_col: from_col as nat,
                        to_line: line as nat,
                        to_col: col as nat,
                        lexeme: "/*"@,
                    },
                ));
            }
        } else {
            match scan_token(source, pos) {
                Some((end, kind)) => {
                    let lexeme = chars_to_string(&source.as_slice()[pos..end]);
                    let width = end - pos;
                    let token = Token {
                        kind,
                        span: TextSpan { from_line: line, from_col: col, to_line: line, to_col: col + width - 1, lexeme },
                    };
                    proof {
                        let g = source@.subrange(gap_start, pos as int);
                        lemma_weave_push(gaps, tokens@, g, token);
                        assert(source@.subrange(0, gap_start) + g + source@.subrange(pos as int, end as int)
                            =~= source@.subrange(0, end as int));
                        gaps = gaps.push(g);
                        gap_start = end as int;
                    }
                    let ghost old_tokens = tokens@;
                    tokens.push(token);
                    assert(tokens@.map_values(|t: Token| token_view(t)) =~= old_tokens.map_values(
                        |t: Token| token_view(t),
                    ).push(token_view(token)));
                    col = col + width;
                    pos = end;
                },
                None => {
                    let text = chars_to_string(&source.as_slice()[pos..pos + 1]);
                    let e = LexicalError::InvalidCharacter(
                        TextSpan { from_line: line, from_col: col, to_line: line, to_col: col, lexeme: text },
                    );
                    let ghost old_errors = errors@;
                    errors.push(e);
                    assert(errors@.map_values(|e: LexicalError| error_view(e)) =~= old_errors.map_values(
                        |e: LexicalError| error_view(e),
                    ).push(error_view(e)));
                    pos = pos + 1;
                    col = col + 1;
                },
            }
        }
        assert(state_of(pos, line, col, tokens@, errors@) =~= lex_step(src, before));
    }
    let ghost fin = state_of(pos, line, col, tokens@, errors@);
    assert(lex_from(src, fin) == fin);
    if errors.len() > 0 {
        return Err(errors);
    }
    let eof = Token {
        kind: TokenKind::EndOfFile,
        span: TextSpan { from_line: line, from_col: col, to_line: line, to_col: col, lexeme: String::new() },
    };
    proof {
        let g = source@.subrange(gap_start, n as int);
        lemma_weave_push(gaps, tokens@, g, eof);
        assert(source@.subrange(0, gap_start) + g + eof.span.lexeme@ =~= source@);
        gaps = gaps.push(g);
    }
    let ghost old_tokens = tokens@;
    tokens.push(eof);
    assert(tokens@.map_values(|t: Token| token_view(t)) =~= old_tokens.map_values(|t: Token| token_view(t)).push(
        token_view(eof),
    ));
    assert(weave(gaps, tokens@) == source@);
    Ok(tokens)
}

} // verus!

use vstd::prelude::*;
use vstd::string::*;
use crate::common::text::{chars_of, decimal, push_chars, push_decimal, push_str, same_chars, string_of};
use crate::lexer::token::Token;

verus! {

/// A token as the parser takes it: its kind, its text, and the line on
/// which it ends. For a number the program that drives the library puts the
/// number's bits in `number`, which the lexer leaves 0.
#[derive(Debug, Clone, PartialEq)]
pub struct Lexeme {
    pub token: Token,
    pub text: String,
    pub line: usize,
    pub number: u64,
}

/// The lexer: it reads a source text token by token.
#[derive(Debug, Clone, PartialEq)]
pub struct Lexer {
    /// The source text.
    pub src: Vec<char>,
    /// The character at `pos`, and the null character past the end.
    pub current: char,
    /// The name of the source, for messages.
    pub name: String,
    /// The place of the next character to read.
    pub pos: usize,
    /// The line of that character, counted from 1.
    pub line: usize,
    /// The text of the token read last: of a name, a number or a string.
    pub buf: Vec<char>,
    /// The token read last.
    pub token: Token,
}

/// The character of a source text at a place, and the null character past
/// the end of the text.
pub open spec fn char_at(src: Seq<char>, pos: int) -> char {
    if 0 <= pos < src.len() {
        src[pos]
    } else {
        '\0'
    }
}

/// A letter of the Latin alphabet.
pub open spec fn alpha(c: char) -> bool {
    ('a' <= c && c <= 'z') || ('A' <= c && c <= 'Z')
}

/// A decimal digit.
pub open spec fn num(c: char) -> bool {
    '0' <= c && c <= '9'
}

/// A character of a name: a letter or an underscore.
pub open spec fn ident(c: char) -> bool {
    alpha(c) || c == '_'
}

/// The keyword that a text is, if it is one.
pub open spec fn keyword(text: Seq<char>) -> Option<Token> {
    if text == "let"@ {
        Some(Token::Let)
    } else if text == "if"@ {
        Some(Token::If)
    } else if text == "else"@ {
        Some(Token::Else)
    } else if text == "fn"@ {
        Some(Token::Fn)
    } else if text == "for"@ {
        Some(Token::For)
    } else if text == "return"@ {
        Some(Token::Return)
    } else if text == "while"@ {
        Some(Token::While)
    } else if text == "true"@ {
        Some(Token::True)
    } else if text == "false"@ {
        Some(Token::False)
    } else if text == "nil"@ {
        Some(Token::Nil)
    } else {
        None
    }
}

/// How a token is shown in a message: a token with a fixed spelling by that
/// spelling, a single character by itself, the end of the text and a name
/// by a word in angle brackets, and any other token by the given text.
pub open spec fn token_text(token: Token, buf: Seq<char>) -> Seq<char> {
    match token {
        Token::SC(c) => seq![c],
        Token::Eof => "<eof>"@,
        Token::Name => "<name>"@,
        Token::Unset => "???"@,
        Token::LeftParen => "("@,
        Token::RightParen => ")"@,
        Token::LeftSquare => "["@,
        Token::RightSquare => "]"@,
        Token::LeftBrace => "{"@,
        Token::RightBrace => "}"@,
        Token::Colon => ":"@,
        Token::Line => "|"@,
        Token::Dot => "."@,
        Token::And => "&&"@,
        Token::Or => "||"@,
        Token::Equal => "="@,
        Token::Plus => "+"@,
        Token::Dash => "-"@,
        Token::Star => "*"@,
        Token::Slash => "/"@,
        Token::Percent => "%"@,
        Token::Bang => "!"@,
        Token::Semi => ";"@,
        Token::Comma => ","@,
        Token::Eq => "=="@,
        Token::Neq => "!="@,
        Token::Gt => "<"@,
        Token::Ge => "<="@,
        Token::Lt => ">"@,
        Token::Le => ">="@,
        _ => buf,
    }
}

/// The text of an error of the lexer or the parser: the source's name, the
/// line, what is wrong, and the token near which it is.
pub open spec fn near_text(name: Seq<char>, line: nat, err: Seq<char>, token: Token, buf: Seq<char>) -> Seq<
    char,
> {
    name + ":"@ + decimal(line) + ": "@ + err + " near '"@ + token_text(token, buf) + "'"@
}

/// The end of the run of name characters that starts at `pos`.
pub open spec fn name_end(src: Seq<char>, pos: int) -> int
    decreases src.len() - pos,
{
    if 0 <= pos < src.len() && ident(src[pos]) && src[pos] != '\0' {
        name_end(src, pos + 1)
    } else {
        pos
    }
}

/// A character that separates tokens: a space, a tab, or the end of a line.
pub open spec fn blank(c: char) -> bool {
    c == ' ' || c == '\t' || c == '\n' || c == '\r'
}

/// A character that ends a line. Each of the two counts as one line.
pub open spec fn line_end(c: char) -> bool {
    c == '\n' || c == '\r'
}

/// The end of the run of blanks that starts at `pos`.
pub open spec fn blanks_end(src: Seq<char>, pos: int) -> int
    decreases src.len() - pos,
{
    if 0 <= pos < src.len() && blank(src[pos]) {
        blanks_end(src, pos + 1)
    } else {
        pos
    }
}

/// The number of line ends in the run of blanks that starts at `pos`.
pub open spec fn blank_lines(src: Seq<char>, pos: int) -> nat
    decreases src.len() - pos,
{
    if 0 <= pos < src.len() && blank(src[pos]) {
        blank_lines(src, pos + 1) + (if line_end(src[pos]) {
            1nat
        } else {
            0nat
        })
    } else {
        0
    }
}

/// The token with a fixed spelling that starts with the character `c`,
/// followed by `d`, and the number of characters that it takes.
pub open spec fn punct(c: char, d: char) -> Option<(Token, int)> {
    if c == '(' {
        Some((Token::LeftParen, 1))
    } else if c == ')' {
        Some((Token::RightParen, 1))
    } else if c == '[' {
        Some((Token::LeftSquare, 1))
    } else if c == ']' {
        Some((Token::RightSquare, 1))
    } else if c == '{' {
        Some((Token::LeftBrace, 1))
    } else if c == '}' {
        Some((Token::RightBrace, 1))
    } else if c == '+' {
        Some((Token::Plus, 1))
    } else if c == '-' {
        Some((Token::Dash, 1))
    } else if c == '*' {
        Some((Token::Star, 1))
    } else if c == '/' {
        Some((Token::Slash, 1))
    } else if c == '%' {
        Some((Token::Percent, 1))
    } else if c == ';' {
        Some((Token::Semi, 1))
    } else if c == ',' {
        Some((Token::Comma, 1))
    } else if c == ':' {
        Some((Token::Colon, 1))
    } else if c == '.' {
        Some((Token::Dot, 1))
    } else if c == '=' {
        if d == '=' {
            Some((Token::Eq, 2))
        } else {
            Some((Token::Equal, 1))
        }
    } else if c == '<' {
        if d == '=' {
            Some((Token::Ge, 2))
        } else {
            Some((Token::Gt, 1))
        }
    } else if c == '>' {
        if d == '=' {
            Some((Token::Le, 2))
        } else {
            Some((Token::Lt, 1))
        }
    } else if c == '!' {
        if d == '=' {
            Some((Token::Neq, 2))
        } else {
            Some((Token::Bang, 1))
        }
    } else if c == '|' {
        if d == '|' {
            Some((Token::Or, 2))
        } else {
            Some((Token::Line, 1))
        }
    } else if c == '&' && d == '&' {
        Some((Token::And, 2))
    } else {
        None
    }
}

/// The end of the run of digits and underscores that starts at `pos`.
pub open spec fn digits_end(src: Seq<char>, pos: int) -> int
    decreases src.len() - pos,
{
    if 0 <= pos < src.len() && (num(src[pos]) || src[pos] == '_') {
        digits_end(src, pos + 1)
    } else {
        pos
    }
}

/// The digits of the run of digits and underscores that starts at `pos`.
pub open spec fn digits_of(src: Seq<char>, pos: int) -> Seq<char>
    decreases src.len() - pos,
{
    if 0 <= pos < src.len() && (num(src[pos]) || src[pos] == '_') {
        if src[pos] == '_' {
            digits_of(src, pos + 1)
        } else {
            seq![src[pos]] + digits_of(src, pos + 1)
        }
    } else {
        Seq::empty()
    }
}

/// Where the number ends that starts at `pos`: after its digits, and after
/// the digits behind a point that follows them.
pub open spec fn number_end(src: Seq<char>, pos: int) -> int {
    let e = digits_end(src, pos);
    if char_at(src, e) == '.' {
        digits_end(src, e + 1)
    } else {
        e
    }
}

/// The text of the number that starts at `pos`: its digits without the
/// underscores that group them, and the point with the digits behind it.
pub open spec fn number_text(src: Seq<char>, pos: int) -> Seq<char> {
    let e = digits_end(src, pos);
    if char_at(src, e) == '.' {
        digits_of(src, pos) + seq!['.'] + digits_of(src, e + 1)
    } else {
        digits_of(src, pos)
    }
}

/// What reading a string comes to.
pub ghost enum Scan {
    /// The string's text, the place after its closing quote, and the line
    /// there.
    Text { text: Seq<char>, end: int, line: nat },
    /// The text ended before the string did; the line there, and what was
    /// read of the string.
    Unfinished { line: nat, text: Seq<char> },
    /// The line ended before the string did; the line there, and what was
    /// read of the string.
    Broken { line: nat, text: Seq<char> },
    /// A backslash stands before a character that it cannot stand before;
    /// the line there, and what was read of the string.
    Escape { line: nat, text: Seq<char> },
}

/// The character that an escape stands for, if `e` behind a backslash is
/// one: a tab, a line end, a quote or a backslash.
pub open spec fn escaped(e: char) -> Option<char> {
    if e == 't' {
        Some('\t')
    } else if e == 'n' {
        Some('\n')
    } else if e == '\'' {
        Some('\'')
    } else if e == '"' {
        Some('"')
    } else if e == '\\' {
        Some('\\')
    } else {
        None
    }
}

/// Reads the rest of a string from `pos` on, with `acc` read so far, up to
/// the closing quote. A backslash before the end of a line joins the next
/// line to this one.
pub open spec fn scan_string(src: Seq<char>, pos: int, quote: char, acc: Seq<char>, line: nat) -> Scan
    decreases src.len() - pos,
{
    let c = char_at(src, pos);
    if pos < 0 || pos >= src.len() || c == '\0' {
        Scan::Unfinished { line, text: acc }
    } else if c == quote {
        Scan::Text { text: acc, end: pos + 1, line }
    } else if c == '\n' {
        Scan::Broken { line, text: acc }
    } else if c == '\\' {
        let e = char_at(src, pos + 1);
        if e == '\n' {
            scan_string(src, pos + 2, quote, acc, line + 1)
        } else if escaped(e) is Some {
            scan_string(src, pos + 2, quote, acc.push(escaped(e).unwrap()), line)
        } else if e == '\0' {
            Scan::Unfinished { line, text: acc }
        } else {
            Scan::Escape { line, text: acc }
        }
    } else {
        scan_string(src, pos + 1, quote, acc.push(c), line)
    }
}

/// The text of the error in a result, if it holds one.
pub open spec fn failure<T>(r: Result<T, String>) -> Option<Seq<char>> {
    match r {
        Ok(_) => None,
        Err(e) => Some(e@),
    }
}

/// A run of name characters does not end before it starts.
pub proof fn lemma_name_end(src: Seq<char>, pos: int)
    ensures
        pos <= name_end(src, pos),
        name_end(src, pos) <= src.len() || name_end(src, pos) == pos,
    decreases src.len() - pos,
{
    if 0 <= pos < src.len() && ident(src[pos]) && src[pos] != '\0' {
        lemma_name_end(src, pos + 1);
    }
}

/// A run of blanks does not end before it starts.
pub proof fn lemma_blanks_end(src: Seq<char>, pos: int)
    ensures
        pos <= blanks_end(src, pos),
    decreases src.len() - pos,
{
    if 0 <= pos < src.len() && blank(src[pos]) {
        lemma_blanks_end(src, pos + 1);
    }
}

/// A run of digits does not end before it starts.
pub proof fn lemma_digits_end(src: Seq<char>, pos: int)
    ensures
        pos <= digits_end(src, pos),
    decreases src.len() - pos,
{
    if 0 <= pos < src.len() && (num(src[pos]) || src[pos] == '_') {
        lemma_digits_end(src, pos + 1);
    }
}

/// Tells which token with a fixed spelling starts with `c` followed by `d`,
/// and how many characters it takes.
pub fn punct_at(c: char, d: char) -> (r: Option<(Token, usize)>)
    ensures
        match punct(c, d) {
            Some((t, n)) => r == Some((t, n as usize)) && 1 <= n <= 2,
            None => r is None,
        },
{
    if c == '(' {
        Some((Token::LeftParen, 1))
    } else if c == ')' {
        Some((Token::RightParen, 1))
    } else if c == '[' {
        Some((Token::LeftSquare, 1))
    } else if c == ']' {
        Some((Token::RightSquare, 1))
    } else if c == '{' {
        Some((Token::LeftBrace, 1))
    } else if c == '}' {
        Some((Token::RightBrace, 1))
    } else if c == '+' {
        Some((Token::Plus, 1))
    } else if c == '-' {
        Some((Token::Dash, 1))
    } else if c == '*' {
        Some((Token::Star, 1))
    } else if c == '/' {
        Some((Token::Slash, 1))
    } else if c == '%' {
        Some((Token::Percent, 1))
    } else if c == ';' {
        Some((Token::Semi, 1))
    } else if c == ',' {
        Some((Token::Comma, 1))
    } else if c == ':' {
        Some((Token::Colon, 1))
    } else if c == '.' {
        Some((Token::Dot, 1))
    } else if c == '=' {
        if d == '=' {
            Some((Token::Eq, 2))
        } else {
            Some((Token::Equal, 1))
        }
    } else if c == '<' {
        if d == '=' {
            Some((Token::Ge, 2))
        } else {
            Some((Token::Gt, 1))
        }
    } else if c == '>' {
        if d == '=' {
            Some((Token::Le, 2))
        } else {
            Some((Token::Lt, 1))
        }
    } else if c == '!' {
        if d == '=' {
            Some((Token::Neq, 2))
        } else {
            Some((Token::Bang, 1))
        }
    } else if c == '|' {
        if d == '|' {
            Some((Token::Or, 2))
        } else {
            Some((Token::Line, 1))
        }
    } else if c == '&' && d == '&' {
        Some((Token::And, 2))
    } else {
        None
    }
}

/// The text of the error that reading a string came to.
pub open spec fn scan_error(name: Seq<char>, scan: Scan) -> Seq<char> {
    match scan {
        Scan::Unfinished { line, text } => near_text(name, line, "unfinished string"@, Token::Eof, text),
        Scan::Broken { line, text } => near_text(name, line, "unfinished string"@, Token::String, text),
        Scan::Escape { line, text } => near_text(name, line, "invalid escape"@, Token::String, text),
        Scan::Text { text, end, line } => Seq::empty(),
    }
}

/// What reading one token comes to: the token or the text of an error, and
/// behind a token the place and the line where the lexer then stands and
/// the text of the token.
pub ghost struct Lexed {
    pub token: Result<Token, Seq<char>>,
    pub pos: int,
    pub line: nat,
    pub buf: Seq<char>,
}

/// Reading one token from the place `pos` of a text, at the line `line`,
/// after the token `prev`. The blanks before the token are skipped and
/// their line ends counted. Then the character `c` that follows decides:
/// the null character, and the end of the text, is the end; a token with a
/// fixed spelling is read as that; a quote starts a string, a name
/// character a name or a keyword, a digit a number; and any other character
/// is an error.
pub open spec fn lex_at(src: Seq<char>, name: Seq<char>, pos: int, line: nat, prev: Token) -> Lexed {
    let start = blanks_end(src, pos);
    let line = line + blank_lines(src, pos);
    let c = char_at(src, start);
    let d = char_at(src, start + 1);
    if c == '\0' {
        Lexed { token: Ok(Token::Eof), pos: start, line, buf: Seq::empty() }
    } else if punct(c, d) is Some {
        Lexed { token: Ok(punct(c, d).unwrap().0), pos: start + punct(c, d).unwrap().1, line, buf: Seq::empty() }
    } else if c == '\'' || c == '"' {
        match scan_string(src, start + 1, c, Seq::empty(), line) {
            Scan::Text { text, end, line } => Lexed { token: Ok(Token::String), pos: end, line, buf: text },
            scan => Lexed { token: Err(scan_error(name, scan)), pos: start, line, buf: Seq::empty() },
        }
    } else if ident(c) {
        let end = name_end(src, start);
        let buf = src.subrange(start, end);
        Lexed {
            token: Ok(
                match keyword(buf) {
                    Some(k) => k,
                    None => Token::Name,
                },
            ),
            pos: end,
            line,
            buf,
        }
    } else if num(c) {
        let end = number_end(src, start);
        let buf = number_text(src, start);
        Lexed {
            token: if num(char_at(src, end)) || alpha(char_at(src, end)) {
                Err(near_text(name, line, "malformed number"@, prev, buf))
            } else {
                Ok(Token::Number)
            },
            pos: end,
            line,
            buf,
        }
    } else {
        Lexed {
            token: Err(near_text(name, line, "unexpected token"@, Token::SC(c), Seq::empty())),
            pos: start,
            line,
            buf: Seq::empty(),
        }
    }
}

/// What reading one token does to a lexer: what [`lex_at`] says. Behind a
/// token the lexer stands where the token ends and holds its text.
pub open spec fn lexed(pre: Lexer, post: Lexer, r: Result<Token, String>) -> bool {
    let l = lex_at(pre.src@, pre.name@, pre.pos as int, pre.line as nat, pre.token);
    match l.token {
        Ok(t) => r == Ok::<Token, String>(t) && post.pos == l.pos && post.line == l.line && post.buf@ == l.buf,
        Err(e) => failure(r) == Some(e),
    }
}

/// A token as the parser takes it, with text as a sequence of characters.
pub ghost struct Lx {
    pub token: Token,
    pub text: Seq<char>,
    pub line: usize,
    pub number: u64,
}

/// The views of a sequence of tokens.
pub open spec fn lexeme_views(s: Seq<Lexeme>) -> Seq<Lx> {
    Seq::new(s.len(), |i: int| Lx { token: s[i].token, text: s[i].text@, line: s[i].line, number: s[i].number })
}

/// A token that is not the end takes at least one character of the text.
pub proof fn lemma_lex_progress(src: Seq<char>, name: Seq<char>, pos: int, line: nat, prev: Token)
    requires
        0 <= pos <= src.len(),
    ensures
        ({
            let l = lex_at(src, name, pos, line, prev);
            &&& l.pos >= pos
            &&& l.token is Ok && l.token != Ok::<Token, Seq<char>>(Token::Eof) ==> l.pos > pos
        }),
{
    lemma_blanks_end(src, pos);
    let start = blanks_end(src, pos);
    lemma_name_end(src, start);
    lemma_name_end(src, start + 1);
    lemma_digits_end(src, start);
    lemma_digits_end(src, start + 1);
    lemma_digits_end(src, digits_end(src, start) + 1);
    let c = char_at(src, start);
    if c == '\'' || c == '"' {
        lemma_scan_end(src, start + 1, c, Seq::empty(), line + blank_lines(src, pos));
    }
}

/// A string ends behind the place where it starts.
pub proof fn lemma_scan_end(src: Seq<char>, pos: int, quote: char, acc: Seq<char>, line: nat)
    requires
        0 <= pos,
    ensures
        scan_string(src, pos, quote, acc, line) matches Scan::Text { text, end, line } ==> end > pos,
    decreases src.len() - pos,
{
    let c = char_at(src, pos);
    if pos < src.len() && c != '\0' && c != quote && c != '\n' {
        if c == '\\' {
            let e = char_at(src, pos + 1);
            if e == '\n' {
                lemma_scan_end(src, pos + 2, quote, acc, line + 1);
            } else if escaped(e) is Some {
                lemma_scan_end(src, pos + 2, quote, acc.push(escaped(e).unwrap()), line);
            }
        } else {
            lemma_scan_end(src, pos + 1, quote, acc.push(c), line);
        }
    }
}

/// The tokens of a text from the place `pos` on, up to and with the token
/// that marks its end; or the text of the first error.
pub open spec fn tokens_from(src: Seq<char>, name: Seq<char>, pos: int, line: nat, prev: Token) -> Result<
    Seq<Lx>,
    Seq<char>,
>
    decreases src.len() - pos,
    when 0 <= pos <= src.len()
    via tokens_from_ends
{
    let l = lex_at(src, name, pos, line, prev);
    match l.token {
        Err(e) => Err(e),
        Ok(t) => {
            let first = Lx { token: t, text: l.buf, line: l.line as usize, number: 0 };
            if t == Token::Eof || l.pos > src.len() {
                Ok(seq![first])
            } else {
                match tokens_from(src, name, l.pos, l.line, t) {
                    Err(e) => Err(e),
                    Ok(rest) => Ok(seq![first] + rest),
                }
            }
        },
    }
}

/// A result with tokens put before the tokens that it holds.
pub open spec fn joined(acc: Seq<Lx>, r: Result<Seq<Lx>, Seq<char>>) -> Result<Seq<Lx>, Seq<char>> {
    match r {
        Ok(rest) => Ok(acc + rest),
        Err(e) => Err(e),
    }
}

#[via_fn]
proof fn tokens_from_ends(src: Seq<char>, name: Seq<char>, pos: int, line: nat, prev: Token) {
    lemma_lex_progress(src, name, pos, line, prev);
}

/// Writes how a token is shown in a message, see [`token_text`].
pub fn token_str(token: Token, buf: &Vec<char>) -> (s: String)
    ensures
        s@ == token_text(token, buf@),
{
    let mut out: Vec<char> = Vec::new();
    match token {
        Token::SC(c) => {
            out.push(c);
            assert(out@ =~= seq![c]);
        },
        Token::Eof => push_str(&mut out, "<eof>"),
        Token::Name => push_str(&mut out, "<name>"),
        Token::Unset => push_str(&mut out, "???"),
        Token::LeftParen => push_str(&mut out, "("),
        Token::RightParen => push_str(&mut out, ")"),
        Token::LeftSquare => push_str(&mut out, "["),
        Token::RightSquare => push_str(&mut out, "]"),
        Token::LeftBrace => push_str(&mut out, "{"),
        Token::RightBrace => push_str(&mut out, "}"),
        Token::Colon => push_str(&mut out, ":"),
        Token::Line => push_str(&mut out, "|"),
        Token::Dot => push_str(&mut out, "."),
        Token::And => push_str(&mut out, "&&"),
        Token::Or => push_str(&mut out, "||"),
        Token::Equal => push_str(&mut out, "="),
        Token::Plus => push_str(&mut out, "+"),
        Token::Dash => push_str(&mut out, "-"),
        Token::Star => push_str(&mut out, "*"),
        Token::Slash => push_str(&mut out, "/"),
        Token::Percent => push_str(&mut out, "%"),
        Token::Bang => push_str(&mut out, "!"),
        Token::Semi => push_str(&mut out, ";"),
        Token::Comma => push_str(&mut out, ","),
        Token::Eq => push_str(&mut out, "=="),
        Token::Neq => push_str(&mut out, "!="),
        Token::Gt => push_str(&mut out, "<"),
        Token::Ge => push_str(&mut out, "<="),
        Token::Lt => push_str(&mut out, ">"),
        Token::Le => push_str(&mut out, ">="),
        _ => push_chars(&mut out, buf),
    }
    assert(out@ =~= token_text(token, buf@));
    string_of(&out)
}

/// Writes an error: the source's name, the line, what is wrong, and the
/// token near which it is.
pub fn error_near(name: &str, line: usize, err: &str, token: Token, buf: &Vec<char>) -> (s: String)
    ensures
        s@ == near_text(name@, line as nat, err@, token, buf@),
{
    let mut out: Vec<char> = Vec::new();
    push_str(&mut out, name);
    push_str(&mut out, ":");
    push_decimal(&mut out, line as u64);
    push_str(&mut out, ": ");
    push_str(&mut out, err);
    push_str(&mut out, " near '");
    push_str(&mut out, token_str(token, buf).as_str());
    push_str(&mut out, "'");
    assert(out@ =~= near_text(name@, line as nat, err@, token, buf@));
    string_of(&out)
}

impl Lexer {
    /// What holds of a lexer at any time: `current` is the character at
    /// `pos`, and no more lines have ended than characters were read.
    pub open spec fn wf(&self) -> bool {
        &&& self.current == char_at(self.src@, self.pos as int)
        &&& self.pos <= self.src.len()
        &&& self.src.len() < usize::MAX
        &&& self.line <= self.pos + 1
    }

    /// A lexer at the start of a source text. (A text of `usize::MAX`
    /// characters, which no machine holds, would lose its last one.)
    pub fn new(src: String, name: String) -> (lexer: Lexer)
        ensures
            lexer.wf(),
            src@.len() < usize::MAX ==> lexer.src@ == src@,
            lexer.name@ == name@,
            lexer.pos == 0,
            lexer.line == 1,
            lexer.buf@ == Seq::<char>::empty(),
            lexer.token == Token::Unset,
    {
        let mut src: Vec<char> = chars_of(src.as_str());
        if src.len() == usize::MAX {
            src.pop();
        }
        let current: char = if src.len() > 0 {
            src[0]
        } else {
            '\0'
        };
        Lexer { src, name, pos: 0, line: 1, buf: Vec::new(), token: Token::Unset, current }
    }

    /// Moves to the next character; at the end of the text the lexer stays.
    pub fn next(&mut self)
        requires
            old(self).wf(),
        ensures
            final(self).wf(),
            final(self).pos == (if old(self).pos < old(self).src.len() {
                old(self).pos + 1
            } else {
                old(self).pos as int
            }),
            *final(self) == (Lexer { pos: final(self).pos, current: final(self).current, ..*old(self) }),
    {
        if self.pos < self.src.len() {
            self.pos = self.pos + 1;
        }
        if self.pos >= self.src.len() {
            self.current = '\0';
        } else {
            self.current = self.src[self.pos];
        }
    }

    /// Tells whether the current character is a letter.
    pub fn is_alpha(&self) -> (r: bool)
        ensures
            r == alpha(self.current),
    {
        (self.current >= 'a' && self.current <= 'z') || (self.current >= 'A' && self.current <= 'Z')
    }

    /// Tells whether the current character is a digit.
    pub fn is_num(&self) -> (r: bool)
        ensures
            r == num(self.current),
    {
        self.current >= '0' && self.current <= '9'
    }

    /// Tells whether the current character is a letter or a digit.
    pub fn is_alnum(&self) -> (r: bool)
        ensures
            r == (num(self.current) || alpha(self.current)),
    {
        self.is_num() || self.is_alpha()
    }

    /// Tells whether the current character can stand in a name.
    pub fn is_ident(&self) -> (r: bool)
        ensures
            r == ident(self.current),
    {
        self.is_alpha() || self.current == '_'
    }

    /// Tells which keyword the text read last is, if it is one.
    pub fn is_keyword(&self) -> (r: Option<Token>)
        ensures
            r == keyword(self.buf@),
    {
        if self.buf_is("let") {
            Some(Token::Let)
        } else if self.buf_is("if") {
            Some(Token::If)
        } else if self.buf_is("else") {
            Some(Token::Else)
        } else if self.buf_is("fn") {
            Some(Token::Fn)
        } else if self.buf_is("for") {
            Some(Token::For)
        } else if self.buf_is("return") {
            Some(Token::Return)
        } else if self.buf_is("while") {
            Some(Token::While)
        } else if self.buf_is("true") {
            Some(Token::True)
        } else if self.buf_is("false") {
            Some(Token::False)
        } else if self.buf_is("nil") {
            Some(Token::Nil)
        } else {
            None
        }
    }

    /// Tells whether the text read last is the given word.
    fn buf_is(&self, word: &str) -> (r: bool)
        ensures
            r == (self.buf@ == word@),
    {
        let w: Vec<char> = chars_of(word);
        same_chars(&self.buf, &w)
    }

    /// The text read last, as a string.
    pub fn text(&self) -> (s: String)
        ensures
            s@ == self.buf@,
    {
        string_of(&self.buf)
    }

    /// Writes how a token is shown in a message.
    pub fn token2str(&self, token: Token) -> (s: String)
        ensures
            s@ == token_text(token, self.buf@),
    {
        token_str(token, &self.buf)
    }

    /// Writes an error: the source's name, the line, what is wrong, and the
    /// token near which it is.
    pub fn error(&self, err: &str, token: Token) -> (s: String)
        ensures
            s@ == near_text(self.name@, self.line as nat, err@, token, self.buf@),
    {
        error_near(self.name.as_str(), self.line, err, token, &self.buf)
    }

    /// Reads a name: the run of letters and underscores from the current
    /// character on goes to the end of the text read.
    pub fn read_name(&mut self)
        requires
            old(self).wf(),
        ensures
            final(self).wf(),
            final(self).pos == name_end(old(self).src@, old(self).pos as int),
            final(self).buf@ == old(self).buf@ + old(self).src@.subrange(old(self).pos as int, final(self).pos as int),
            *final(self) == (Lexer {
                pos: final(self).pos,
                current: final(self).current,
                buf: final(self).buf,
                ..*old(self)
            }),
    {
        assert(self.buf@ =~= old(self).buf@ + old(self).src@.subrange(old(self).pos as int, self.pos as int));
        while self.is_ident() && self.pos < self.src.len()
            invariant
                self.wf(),
                old(self).pos <= self.pos,
                name_end(old(self).src@, old(self).pos as int) == name_end(self.src@, self.pos as int),
                self.buf@ == old(self).buf@ + old(self).src@.subrange(old(self).pos as int, self.pos as int),
                *self == (Lexer { pos: self.pos, current: self.current, buf: self.buf, ..*old(self) }),
            decreases self.src.len() - self.pos,
        {
            self.buf.push(self.current);
            self.next();
            assert(self.buf@ =~= old(self).buf@ + old(self).src@.subrange(old(self).pos as int, self.pos as int));
        }
    }

    /// Skips the blanks before a token, counting the lines that end.
    pub fn skip_blanks(&mut self)
        requires
            old(self).wf(),
        ensures
            final(self).wf(),
            final(self).pos == blanks_end(old(self).src@, old(self).pos as int),
            final(self).line == old(self).line + blank_lines(old(self).src@, old(self).pos as int),
            *final(self) == (Lexer {
                pos: final(self).pos,
                current: final(self).current,
                line: final(self).line,
                ..*old(self)
            }),
    {
        let ghost src = self.src@;
        let ghost mut seen: nat = 0;
        while self.pos < self.src.len() && (self.current == ' ' || self.current == '\t' || self.current == '\n'
            || self.current == '\r')
            invariant
                self.wf(),
                src == self.src@,
                old(self).pos <= self.pos,
                blanks_end(src, old(self).pos as int) == blanks_end(src, self.pos as int),
                blank_lines(src, old(self).pos as int) == seen + blank_lines(src, self.pos as int),
                self.line == old(self).line + seen,
                *self == (Lexer { pos: self.pos, current: self.current, line: self.line, ..*old(self) }),
            decreases self.src.len() - self.pos,
        {
            let ended: bool = self.current == '\n' || self.current == '\r';
            self.next();
            if ended {
                self.line = self.line + 1;
                proof {
                    seen = seen + 1;
                }
            }
        }
    }

    /// Reads the digits of a number: the run of digits and underscores from
    /// the current character on, of which the digits go to the end of the
    /// text read.
    fn read_digits(&mut self)
        requires
            old(self).wf(),
        ensures
            final(self).wf(),
            final(self).pos == digits_end(old(self).src@, old(self).pos as int),
            final(self).buf@ == old(self).buf@ + digits_of(old(self).src@, old(self).pos as int),
            *final(self) == (Lexer {
                pos: final(self).pos,
                current: final(self).current,
                buf: final(self).buf,
                ..*old(self)
            }),
    {
        let ghost src = self.src@;
        assert(self.buf@ + digits_of(src, self.pos as int) =~= old(self).buf@ + digits_of(src, old(self).pos as int));
        while self.pos < self.src.len() && (self.is_num() || self.current == '_')
            invariant
                self.wf(),
                src == self.src@,
                old(self).pos <= self.pos,
                digits_end(src, old(self).pos as int) == digits_end(src, self.pos as int),
                self.buf@ + digits_of(src, self.pos as int) == old(self).buf@ + digits_of(
                    src,
                    old(self).pos as int,
                ),
                *self == (Lexer { pos: self.pos, current: self.current, buf: self.buf, ..*old(self) }),
            decreases self.src.len() - self.pos,
        {
            let ghost before = self.buf@;
            let ghost at = self.pos as int;
            if self.current != '_' {
                self.buf.push(self.current);
                assert(self.buf@ + digits_of(src, at + 1) =~= before + (seq![src[at]] + digits_of(src, at + 1)));
            }
            self.next();
        }
        assert(digits_of(src, self.pos as int) =~= Seq::<char>::empty());
        assert(self.buf@ + Seq::<char>::empty() =~= self.buf@);
    }

    /// Reads a number: digits, and behind a point more digits. Underscores
    /// may group the digits. A number that a letter or a digit follows is
    /// malformed.
    pub fn read_number(&mut self) -> (r: Result<(), String>)
        requires
            old(self).wf(),
        ensures
            final(self).wf(),
            final(self).pos == number_end(old(self).src@, old(self).pos as int),
            final(self).buf@ == old(self).buf@ + number_text(old(self).src@, old(self).pos as int),
            *final(self) == (Lexer {
                pos: final(self).pos,
                current: final(self).current,
                buf: final(self).buf,
                ..*old(self)
            }),
            r is Ok <==> !(num(final(self).current) || alpha(final(self).current)),
            r matches Err(e) ==> e@ == near_text(
                old(self).name@,
                old(self).line as nat,
                "malformed number"@,
                old(self).token,
                final(self).buf@,
            ),
    {
        self.read_digits();
        if self.current == '.' && self.pos < self.src.len() {
            let ghost before = self.buf@;
            self.buf.push(self.current);
            self.next();
            self.read_digits();
            assert(self.buf@ =~= old(self).buf@ + number_text(old(self).src@, old(self).pos as int));
        }
        if self.is_alnum() {
            Err(self.error("malformed number", self.token))
        } else {
            Ok(())
        }
    }

    /// What reading a string has come to, as a lexer shows it: at the end
    /// of a string the lexer stands behind the closing quote and holds the
    /// string's text; an error names the line at which it was met.
    pub open spec fn shows(&self, scan: Scan, failed: Option<Seq<char>>) -> bool {
        match scan {
            Scan::Text { text, end, line } => failed is None && self.pos == end && self.buf@ == text
                && self.line == line,
            _ => failed == Some(scan_error(self.name@, scan)),
        }
    }

    /// Reads a string whose opening quote is the current character: the
    /// text up to the closing quote goes to the end of the text read, with
    /// each escape replaced by the character that it stands for.
    pub fn read_string(&mut self, quote: char) -> (r: Result<(), String>)
        requires
            old(self).wf(),
            old(self).current == quote,
            quote != '\0',
        ensures
            final(self).wf(),
            final(self).pos > old(self).pos,
            final(self).src == old(self).src,
            final(self).name == old(self).name,
            final(self).token == old(self).token,
            final(self).shows(
                scan_string(old(self).src@, old(self).pos + 1, quote, old(self).buf@, old(self).line as nat),
                failure(r),
            ),
    {
        let ghost src = self.src@;
        let ghost goal = scan_string(src, self.pos + 1, quote, self.buf@, self.line as nat);
        self.next();
        let mut state: u8 = 0;
        while state == 0
            invariant
                self.wf(),
                src == self.src@,
                self.src == old(self).src,
                self.name == old(self).name,
                self.token == old(self).token,
                old(self).pos < self.pos,
                quote != '\0',
                state <= 4,
                state == 0 ==> goal == scan_string(src, self.pos as int, quote, self.buf@, self.line as nat),
                state == 1 ==> goal == (Scan::Text { text: self.buf@, end: self.pos as int, line: self.line as nat }),
                state == 2 ==> goal == (Scan::Unfinished { line: self.line as nat, text: self.buf@ }),
                state == 3 ==> goal == (Scan::Broken { line: self.line as nat, text: self.buf@ }),
                state == 4 ==> goal == (Scan::Escape { line: self.line as nat, text: self.buf@ }),
            decreases self.src.len() - self.pos + (if state == 0 { 1int } else { 0int }),
        {
            if self.pos >= self.src.len() || self.current == '\0' {
                state = 2;
            } else if self.current == quote {
                self.next();
                state = 1;
            } else if self.current == '\n' {
                state = 3;
            } else if self.current == '\\' {
                self.next();
                let e: char = self.current;
                if self.pos >= self.src.len() || e == '\0' {
                    state = 2;
                } else if e == '\n' {
                    self.next();
                    self.line = self.line + 1;
                } else if e == 't' {
                    self.buf.push('\t');
                    self.next();
                } else if e == 'n' {
                    self.buf.push('\n');
                    self.next();
                } else if e == '\'' {
                    self.buf.push('\'');
                    self.next();
                } else if e == '"' {
                    self.buf.push('"');
                    self.next();
                } else if e == '\\' {
                    self.buf.push('\\');
                    self.next();
                } else {
                    state = 4;
                }
            } else {
                self.buf.push(self.current);
                self.next();
            }
        }
        if state == 1 {
            Ok(())
        } else if state == 2 {
            Err(self.error("unfinished string", Token::Eof))
        } else if state == 3 {
            Err(self.error("unfinished string", Token::String))
        } else {
            Err(self.error("invalid escape", Token::String))
        }
    }

    /// Reads one token: see [`lexed`]. The text of a name, a number or a
    /// string is in `buf` afterwards.
    pub fn lex(&mut self) -> (r: Result<Token, String>)
        requires
            old(self).wf(),
        ensures
            final(self).wf(),
            final(self).src == old(self).src,
            final(self).name == old(self).name,
            final(self).token == old(self).token,
            final(self).pos >= old(self).pos,
            r matches Ok(t) && t != Token::Eof ==> final(self).pos > old(self).pos,
            lexed(*old(self), *final(self), r),
    {
        let ghost src = self.src@;
        self.buf.clear();
        self.skip_blanks();
        proof {
            lemma_blanks_end(src, old(self).pos as int);
            lemma_name_end(src, self.pos as int);
            lemma_name_end(src, self.pos + 1);
            lemma_digits_end(src, self.pos as int);
            lemma_digits_end(src, self.pos + 1);
            lemma_digits_end(src, digits_end(src, self.pos as int) + 1);
        }
        let c: char = self.current;
        let d: char = if self.pos + 1 < self.src.len() {
            self.src[self.pos + 1]
        } else {
            '\0'
        };
        if c == '\0' {
            return Ok(Token::Eof);
        }
        match punct_at(c, d) {
            Some((t, n)) => {
                self.next();
                if n == 2 {
                    self.next();
                }
                return Ok(t);
            },
            None => {},
        }
        if c == '\'' || c == '"' {
            match self.read_string(c) {
                Ok(()) => Ok(Token::String),
                Err(e) => Err(e),
            }
        } else if self.is_ident() {
            let ghost start = self.pos as int;
            self.read_name();
            assert(self.buf@ =~= src.subrange(start, self.pos as int));
            match self.is_keyword() {
                Some(k) => Ok(k),
                None => Ok(Token::Name),
            }
        } else if self.is_num() {
            match self.read_number() {
                Ok(()) => Ok(Token::Number),
                Err(e) => Err(e),
            }
        } else {
            Err(self.error("unexpected token", Token::SC(c)))
        }
    }

    /// Reads one token and makes it the token read last.
    pub fn lex_next(&mut self) -> (r: Result<(), String>)
        requires
            old(self).wf(),
        ensures
            final(self).wf(),
            final(self).src == old(self).src,
            final(self).name == old(self).name,
            final(self).pos >= old(self).pos,
            r is Ok && final(self).token != Token::Eof ==> final(self).pos > old(self).pos,
            r is Err ==> final(self).token == old(self).token,
            lexed(
                *old(self),
                Lexer { token: old(self).token, ..*final(self) },
                match r {
                    Ok(_) => Ok(final(self).token),
                    Err(e) => Err(e),
                },
            ),
    {
        match self.lex() {
            Ok(t) => {
                self.token = t;
                Ok(())
            },
            Err(e) => Err(e),
        }
    }

    /// Reads all tokens of the text, up to and with the token that marks
    /// its end. Each token comes with its text and the line on which it
    /// ends; the number of a number token is left 0.
    pub fn lex_all(&mut self) -> (r: Result<Vec<Lexeme>, String>)
        requires
            old(self).wf(),
        ensures
            final(self).wf(),
            match tokens_from(
                old(self).src@,
                old(self).name@,
                old(self).pos as int,
                old(self).line as nat,
                old(self).token,
            ) {
                Ok(t) => r matches Ok(v) && lexeme_views(v@) == t,
                Err(e) => r matches Err(x) && x@ == e,
            },
            r matches Ok(v) ==> {
                &&& v.len() > 0
                &&& v@.last().token == Token::Eof
                &&& forall|i: int| 0 <= i < v.len() - 1 ==> (#[trigger] v@[i]).token != Token::Eof
                &&& forall|i: int| 0 <= i < v.len() ==> (#[trigger] v@[i]).number == 0
            },
    {
        let mut out: Vec<Lexeme> = Vec::new();
        let mut ended: bool = false;
        let ghost src = self.src@;
        let ghost name = self.name@;
        let ghost total = tokens_from(src, name, self.pos as int, self.line as nat, self.token);
        assert(lexeme_views(out@) =~= Seq::empty());
        assert(total == joined(Seq::empty(), total));
        while !ended
            invariant
                self.wf(),
                src == self.src@,
                name == self.name@,
                total == tokens_from(
                    old(self).src@,
                    old(self).name@,
                    old(self).pos as int,
                    old(self).line as nat,
                    old(self).token,
                ),
                forall|i: int| 0 <= i < out.len() ==> (#[trigger] out@[i]).number == 0,
                !ended ==> forall|i: int| 0 <= i < out.len() ==> (#[trigger] out@[i]).token != Token::Eof,
                ended ==> out.len() > 0 && out@.last().token == Token::Eof && forall|i: int|
                    0 <= i < out.len() - 1 ==> (#[trigger] out@[i]).token != Token::Eof,
                !ended ==> total == joined(
                    lexeme_views(out@),
                    tokens_from(src, name, self.pos as int, self.line as nat, self.token),
                ),
                ended ==> total == Ok::<Seq<Lx>, Seq<char>>(lexeme_views(out@)),
            decreases self.src.len() - self.pos + (if ended { 0int } else { 1int }),
        {
            let ghost before = lexeme_views(out@);
            let ghost l = lex_at(src, name, self.pos as int, self.line as nat, self.token);
            let ghost cur = tokens_from(src, name, self.pos as int, self.line as nat, self.token);
            proof {
                lemma_lex_progress(src, name, self.pos as int, self.line as nat, self.token);
                assert(l.token matches Err(e) ==> cur == Err::<Seq<Lx>, Seq<char>>(e));
                assert(total == joined(before, cur));
            }
            match self.lex_next() {
                Ok(()) => {},
                Err(e) => {
                    return Err(e);
                },
            }
            let token: Token = self.token;
            out.push(Lexeme { token, text: self.text(), line: self.line, number: 0 });
            proof {
                let first = Lx { token, text: l.buf, line: l.line as usize, number: 0 };
                assert(lexeme_views(out@) =~= before.push(first));
                assert(before + seq![first] =~= before.push(first));
                if token != Token::Eof {
                    let rest = tokens_from(src, name, self.pos as int, self.line as nat, self.token);
                    match rest {
                        Ok(more) => {
                            assert(before + (seq![first] + more) =~= before.push(first) + more);
                        },
                        Err(_) => {},
                    }
                }
            }
            if token == Token::Eof {
                ended = true;
            }
        }
        Ok(out)
    }
}

} // verus!

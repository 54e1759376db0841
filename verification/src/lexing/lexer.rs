use vstd::prelude::*;
use vstd::string::StringExecFns;
use crate::error::{FlushError, FlushErrorView};
use crate::lexing::typing::{Op, Token, TokenKind, TokenKindView, TokenView};
use crate::text::{
    all_digits, decimal, decimal_value, digits_value, is_digit, is_letter, lemma_decimal_denotes,
    spells, text_of,
};

verus! {

/// What can go wrong while reading tokens.
#[derive(Clone, Copy, Debug, PartialEq, Eq, Structural)]
pub enum LexErrorKind {
    /// The input ended inside a string literal.
    UnterminatedString,
    /// A string literal ran into the end of its line.
    IllegalNewlineInString,
}

/// A lexical error and the line it was found on.
#[derive(Clone, Copy, Debug, PartialEq, Eq, Structural)]
pub struct LexError {
    pub line: usize,
    pub kind: LexErrorKind,
}

/// The runs of characters that the lexer reads through in one go.
#[derive(Clone, Copy, Debug, PartialEq, Eq, Structural)]
pub enum Run {
    /// The rest of an identifier or keyword: letters, digits, underscores.
    Word,
    /// The rest of a number: digits and decimal points.
    Number,
    /// The rest of a comment: anything but a newline.
    Comment,
    /// The inside of a string literal: anything but a quote or a newline.
    Quoted,
}

/// Whether `c` belongs to a run of the given kind.
pub open spec fn in_run(run: Run, c: char) -> bool {
    match run {
        Run::Word => is_letter(c) || is_digit(c) || c == '_',
        Run::Number => is_digit(c) || c == '.',
        Run::Comment => c != '\n',
        Run::Quoted => c != '"' && c != '\n',
    }
}

/// How many characters from `from` on belong to the run, up to the first that does not.
pub open spec fn run_len(s: Seq<char>, from: int, run: Run) -> nat
    decreases s.len() - from,
{
    if 0 <= from < s.len() && in_run(run, s[from]) {
        1 + run_len(s, from + 1, run)
    } else {
        0
    }
}

/// The line after `line`. The count stops at the largest number there is.
pub open spec fn next_line(line: usize) -> usize {
    if line < usize::MAX {
        (line + 1) as usize
    } else {
        line
    }
}

/// The token for a word: a keyword, a boolean, or else an identifier.
pub open spec fn word_kind(w: Seq<char>) -> TokenKindView {
    if w == "if"@ {
        TokenKindView::If
    } else if w == "else"@ {
        TokenKindView::Else
    } else if w == "def"@ {
        TokenKindView::Def
    } else if w == "set"@ {
        TokenKindView::SetVar
    } else if w == "return"@ {
        TokenKindView::Return
    } else if w == "while"@ {
        TokenKindView::While
    } else if w == "for"@ {
        TokenKindView::For
    } else if w == "in"@ {
        TokenKindView::In
    } else if w == "break"@ {
        TokenKindView::Break
    } else if w == "load"@ {
        TokenKindView::Load
    } else if w == "true"@ {
        TokenKindView::Boolean(true)
    } else if w == "false"@ {
        TokenKindView::Boolean(false)
    } else {
        TokenKindView::Ident(w)
    }
}

/// The token for a number's text: an integer where the text is all digits and
/// its value fits in 32 bits with a sign, else a float that keeps the text.
pub open spec fn number_kind(t: Seq<char>) -> TokenKindView {
    if all_digits(t) && decimal_value(t) <= i32::MAX {
        TokenKindView::Int(decimal_value(t) as i32)
    } else {
        TokenKindView::Float(t)
    }
}

/// What reading one lexeme gives: a token or none, where to go on, and the line there.
pub ghost struct Lexeme {
    pub kind: Option<TokenKindView>,
    pub next: int,
    pub line: usize,
}

/// An operator that may be followed by one more character to make another.
pub open spec fn two_char(
    s: Seq<char>,
    pos: int,
    line: usize,
    second: char,
    long: TokenKindView,
    short: TokenKindView,
) -> Lexeme {
    if pos + 1 < s.len() && s[pos + 1] == second {
        Lexeme { kind: Some(long), next: pos + 2, line }
    } else {
        Lexeme { kind: Some(short), next: pos + 1, line }
    }
}

/// One token and no more.
pub open spec fn single(pos: int, line: usize, kind: TokenKindView) -> Lexeme {
    Lexeme { kind: Some(kind), next: pos + 1, line }
}

/// The lexeme that starts at `pos`, on line `line`.
pub open spec fn lexeme_at(s: Seq<char>, pos: int, line: usize) -> Result<Lexeme, LexError>
    recommends
        0 <= pos < s.len(),
{
    let c = s[pos];
    if c == '(' {
        Ok(single(pos, line, TokenKindView::LParen))
    } else if c == ')' {
        Ok(single(pos, line, TokenKindView::RParen))
    } else if c == '{' {
        Ok(single(pos, line, TokenKindView::LBrace))
    } else if c == '}' {
        Ok(single(pos, line, TokenKindView::RBrace))
    } else if c == '[' {
        Ok(single(pos, line, TokenKindView::LBracket))
    } else if c == ']' {
        Ok(single(pos, line, TokenKindView::RBracket))
    } else if c == ',' {
        Ok(single(pos, line, TokenKindView::Comma))
    } else if c == ':' {
        Ok(single(pos, line, TokenKindView::Colon))
    } else if c == '+' {
        Ok(single(pos, line, TokenKindView::Op(Op::Add)))
    } else if c == '-' {
        Ok(single(pos, line, TokenKindView::Op(Op::Sub)))
    } else if c == '*' {
        Ok(single(pos, line, TokenKindView::Op(Op::Mul)))
    } else if c == '/' {
        if pos + 1 < s.len() && s[pos + 1] == '=' {
            Ok(Lexeme { kind: Some(TokenKindView::Op(Op::Ne)), next: pos + 2, line })
        } else {
            Ok(
                two_char(
                    s,
                    pos,
                    line,
                    '/',
                    TokenKindView::Op(Op::FloorDiv),
                    TokenKindView::Op(Op::Div),
                ),
            )
        }
    } else if c == '%' {
        Ok(single(pos, line, TokenKindView::Op(Op::Mod)))
    } else if c == '^' {
        Ok(single(pos, line, TokenKindView::Op(Op::Pow)))
    } else if c == '<' {
        Ok(two_char(s, pos, line, '=', TokenKindView::Op(Op::Le), TokenKindView::Op(Op::Lt)))
    } else if c == '>' {
        Ok(two_char(s, pos, line, '=', TokenKindView::Op(Op::Ge), TokenKindView::Op(Op::Gt)))
    } else if c == '=' {
        Ok(two_char(s, pos, line, '=', TokenKindView::Op(Op::Eq), TokenKindView::Assign))
    } else if c == '"' {
        let end = pos + 1 + run_len(s, pos + 1, Run::Quoted);
        if end >= s.len() {
            Err(LexError { line, kind: LexErrorKind::UnterminatedString })
        } else if s[end] == '\n' {
            Err(LexError { line, kind: LexErrorKind::IllegalNewlineInString })
        } else {
            Ok(
                Lexeme {
                    kind: Some(TokenKindView::String(s.subrange(pos + 1, end))),
                    next: end + 1,
                    line,
                },
            )
        }
    } else if c == '#' {
        let end = pos + 1 + run_len(s, pos + 1, Run::Comment);
        Ok(
            Lexeme {
                kind: None,
                next: if end < s.len() {
                    end + 1
                } else {
                    end
                },
                line: next_line(line),
            },
        )
    } else if c == '\n' {
        Ok(Lexeme { kind: None, next: pos + 1, line: next_line(line) })
    } else if is_digit(c) {
        let end = pos + 1 + run_len(s, pos + 1, Run::Number);
        Ok(Lexeme { kind: Some(number_kind(s.subrange(pos, end))), next: end, line })
    } else if is_letter(c) || c == '_' {
        let end = pos + 1 + run_len(s, pos + 1, Run::Word);
        Ok(Lexeme { kind: Some(word_kind(s.subrange(pos, end))), next: end, line })
    } else {
        Ok(Lexeme { kind: None, next: pos + 1, line })
    }
}

/// `acc` with one more token at its end, where there is one.
pub open spec fn with_token(acc: Seq<TokenView>, kind: Option<TokenKindView>, line: usize) -> Seq<
    TokenView,
> {
    match kind {
        Some(kind) => acc.push(TokenView { line, kind }),
        None => acc,
    }
}

/// The tokens of `s` from `pos` on, after those of `acc`; or the first error.
pub open spec fn tokens_from(s: Seq<char>, pos: int, line: usize, acc: Seq<TokenView>) -> Result<
    Seq<TokenView>,
    LexError,
>
    decreases s.len() - pos,
    via tokens_from_terminates
{
    if 0 <= pos < s.len() {
        match lexeme_at(s, pos, line) {
            Ok(lexeme) => tokens_from(s, lexeme.next, lexeme.line, with_token(acc, lexeme.kind, line)),
            Err(e) => Err(e),
        }
    } else {
        Ok(acc)
    }
}

#[via_fn]
proof fn tokens_from_terminates(s: Seq<char>, pos: int, line: usize, acc: Seq<TokenView>) {
    if 0 <= pos < s.len() {
        lemma_lexeme_advances(s, pos, line);
    }
}

/// A run ends within the text.
pub proof fn lemma_run_within(s: Seq<char>, from: int, run: Run)
    requires
        0 <= from <= s.len(),
    ensures
        from + run_len(s, from, run) <= s.len(),
        from + run_len(s, from, run) < s.len() ==> !in_run(
            run,
            s[from + run_len(s, from, run)],
        ),
    decreases s.len() - from,
{
    if from < s.len() && in_run(run, s[from]) {
        lemma_run_within(s, from + 1, run);
    }
}

/// Every lexeme takes at least one character, and none beyond the text.
pub proof fn lemma_lexeme_advances(s: Seq<char>, pos: int, line: usize)
    requires
        0 <= pos < s.len(),
    ensures
        lexeme_at(s, pos, line) matches Ok(lexeme) ==> pos < lexeme.next <= s.len(),
{
    lemma_run_within(s, pos + 1, Run::Quoted);
    lemma_run_within(s, pos + 1, Run::Comment);
    lemma_run_within(s, pos + 1, Run::Number);
    lemma_run_within(s, pos + 1, Run::Word);
}

/// The tokens of a whole source text, which starts on line one; or the first error.
pub open spec fn tokens_of(s: Seq<char>) -> Result<Seq<TokenView>, LexError> {
    tokens_from(s, 0, 1, Seq::empty())
}

/// The message for a lexical error.
pub open spec fn lex_message(kind: LexErrorKind) -> Seq<char> {
    match kind {
        LexErrorKind::UnterminatedString => "Unterminated string"@,
        LexErrorKind::IllegalNewlineInString => "Illegal newline in a string"@,
    }
}

/// A lexical error as reported for the file `file`.
pub open spec fn lex_report(file: Seq<char>, e: LexError) -> FlushErrorView {
    FlushErrorView { file, line: e.line, message: lex_message(e.kind) }
}

/// Reads a source text into tokens.
pub struct Lexer {
    program: Vec<char>,
    file_path: String,
    tokens: Vec<Token>,
    position: usize,
    line: usize,
}

impl Lexer {
    /// The source text that this lexer reads.
    pub closed spec fn source(&self) -> Seq<char> {
        self.program@
    }

    /// The file that errors are reported for.
    pub closed spec fn file(&self) -> Seq<char> {
        self.file_path@
    }

    /// A lexer for `program`, which errors will say came from `file_path`.
    pub fn new(program: &str, file_path: String) -> (lexer: Self)
        ensures
            lexer.source() == program@,
            lexer.file() == file_path@,
    {
        Lexer {
            program: crate::text::chars_of(program),
            file_path,
            tokens: Vec::new(),
            position: 0,
            line: 1,
        }
    }

    fn current(&self) -> (c: Option<char>)
        ensures
            c == if self.position < self.program.len() {
                Some(self.program@[self.position as int])
            } else {
                None
            },
    {
        if self.position < self.program.len() {
            Some(self.program[self.position])
        } else {
            None
        }
    }

    fn is_at_end(&self) -> (r: bool)
        ensures
            r == (self.position >= self.program.len()),
    {
        self.position >= self.program.len()
    }

    fn bump_line(&mut self)
        ensures
            final(self).line == next_line(old(self).line),
            final(self).program == old(self).program,
            final(self).file_path == old(self).file_path,
            final(self).tokens == old(self).tokens,
            final(self).position == old(self).position,
    {
        if self.line < usize::MAX {
            self.line += 1;
        }
    }

    fn push_token(&mut self, kind: TokenKind)
        ensures
            final(self).tokens.deep_view() == old(self).tokens.deep_view().push(
                TokenView { line: old(self).line, kind: kind.deep_view() },
            ),
            final(self).line == old(self).line,
            final(self).program == old(self).program,
            final(self).file_path == old(self).file_path,
            final(self).position == old(self).position,
    {
        self.tokens.push(Token { line: self.line, kind });
        assert(final(self).tokens.deep_view() =~= old(self).tokens.deep_view().push(
            TokenView { line: old(self).line, kind: kind.deep_view() },
        ));
    }

    /// Moves past the run that starts at the current position.
    fn skip_run(&mut self, run: Run)
        requires
            old(self).position <= old(self).program.len(),
        ensures
            final(self).position == old(self).position + run_len(
                old(self).program@,
                old(self).position as int,
                run,
            ),
            final(self).position <= old(self).program.len(),
            final(self).line == old(self).line,
            final(self).program == old(self).program,
            final(self).file_path == old(self).file_path,
            final(self).tokens == old(self).tokens,
    {
        let ghost s = self.program@;
        let ghost start = self.position as int;
        while self.position < self.program.len() && Self::belongs(run, self.program[self.position])
            invariant
                self.program@ == s,
                start <= self.position <= s.len(),
                run_len(s, start, run) == (self.position - start) + run_len(
                    s,
                    self.position as int,
                    run,
                ),
                self.line == old(self).line,
                self.program == old(self).program,
                self.file_path == old(self).file_path,
                self.tokens == old(self).tokens,
            decreases s.len() - self.position,
        {
            self.position += 1;
        }
    }

    fn belongs(run: Run, c: char) -> (r: bool)
        ensures
            r == in_run(run, c),
    {
        match run {
            Run::Word => Self::letter(c) || Self::digit(c) || c == '_',
            Run::Number => Self::digit(c) || c == '.',
            Run::Comment => c != '\n',
            Run::Quoted => c != '"' && c != '\n',
        }
    }

    fn digit(c: char) -> (r: bool)
        ensures
            r == is_digit(c),
    {
        '0' <= c && c <= '9'
    }

    fn letter(c: char) -> (r: bool)
        ensures
            r == is_letter(c),
    {
        ('a' <= c && c <= 'z') || ('A' <= c && c <= 'Z')
    }

    /// Skips a comment, the `#` of which has been read, and the newline that ends it.
    fn skip_comment(&mut self)
        requires
            old(self).position <= old(self).program.len(),
        ensures
            ({
                let s = old(self).program@;
                let end = old(self).position + run_len(s, old(self).position as int, Run::Comment);
                final(self).position == if end < s.len() {
                    end + 1
                } else {
                    end
                }
            }),
            final(self).line == next_line(old(self).line),
            final(self).program == old(self).program,
            final(self).file_path == old(self).file_path,
            final(self).tokens == old(self).tokens,
    {
        self.skip_run(Run::Comment);
        if self.position < self.program.len() {
            self.position += 1;
        }
        self.bump_line();
    }

    /// Reads a string literal, the opening quote of which has been read.
    fn parse_string(&mut self) -> (r: Result<(), LexError>)
        requires
            0 < old(self).position <= old(self).program.len(),
            old(self).program@[old(self).position - 1] == '"',
        ensures
            final(self).program == old(self).program,
            final(self).file_path == old(self).file_path,
            match lexeme_at(old(self).program@, old(self).position - 1, old(self).line) {
                Ok(lexeme) => {
                    &&& r is Ok
                    &&& final(self).position == lexeme.next
                    &&& final(self).line == lexeme.line
                    &&& final(self).tokens.deep_view() == with_token(
                        old(self).tokens.deep_view(),
                        lexeme.kind,
                        old(self).line,
                    )
                },
                Err(e) => r == Err::<(), LexError>(e) && final(self).tokens == old(self).tokens,
            },
    {
        let start = self.position;
        self.skip_run(Run::Quoted);
        match self.current() {
            None => Err(LexError { line: self.line, kind: LexErrorKind::UnterminatedString }),
            Some(c) => {
                if c == '\n' {
                    Err(LexError { line: self.line, kind: LexErrorKind::IllegalNewlineInString })
                } else {
                    let string = text_of(&self.program, start, self.position);
                    self.position += 1;
                    self.push_token(TokenKind::String(string));
                    Ok(())
                }
            },
        }
    }

    /// The token for the number written in `program[from..to]`.
    fn number_token(&self, from: usize, to: usize) -> (kind: TokenKind)
        requires
            from <= to <= self.program.len(),
        ensures
            kind.deep_view() == number_kind(self.program@.subrange(from as int, to as int)),
    {
        match digits_value(&self.program, from, to, 2147483647) {
            Some(value) => TokenKind::Int(value as i32),
            None => TokenKind::Float(text_of(&self.program, from, to)),
        }
    }

    /// Reads a number, the first digit of which has been read.
    fn parse_number(&mut self)
        requires
            0 < old(self).position <= old(self).program.len(),
        ensures
            ({
                let s = old(self).program@;
                let start = old(self).position - 1;
                let end = start + 1 + run_len(s, start + 1, Run::Number);
                &&& final(self).position == end
                &&& final(self).tokens.deep_view() == old(self).tokens.deep_view().push(
                    TokenView { line: old(self).line, kind: number_kind(s.subrange(start, end)) },
                )
            }),
            final(self).line == old(self).line,
            final(self).program == old(self).program,
            final(self).file_path == old(self).file_path,
    {
        let start = self.position - 1;
        self.skip_run(Run::Number);
        let kind = self.number_token(start, self.position);
        self.push_token(kind);
    }

    /// The token for the word written in `program[from..to]`.
    fn word_token(&self, from: usize, to: usize) -> (kind: TokenKind)
        requires
            from <= to <= self.program.len(),
        ensures
            kind.deep_view() == word_kind(self.program@.subrange(from as int, to as int)),
    {
        if spells(&self.program, from, to, "if") {
            TokenKind::If
        } else if spells(&self.program, from, to, "else") {
            TokenKind::Else
        } else if spells(&self.program, from, to, "def") {
            TokenKind::Def
        } else if spells(&self.program, from, to, "set") {
            TokenKind::SetVar
        } else if spells(&self.program, from, to, "return") {
            TokenKind::Return
        } else if spells(&self.program, from, to, "while") {
            TokenKind::While
        } else if spells(&self.program, from, to, "for") {
            TokenKind::For
        } else if spells(&self.program, from, to, "in") {
            TokenKind::In
        } else if spells(&self.program, from, to, "break") {
            TokenKind::Break
        } else if spells(&self.program, from, to, "load") {
            TokenKind::Load
        } else if spells(&self.program, from, to, "true") {
            TokenKind::Boolean(true)
        } else if spells(&self.program, from, to, "false") {
            TokenKind::Boolean(false)
        } else {
            TokenKind::Ident(text_of(&self.program, from, to))
        }
    }

    /// Reads an identifier or keyword, the first character of which has been read.
    fn parse_identifier(&mut self)
        requires
            0 < old(self).position <= old(self).program.len(),
        ensures
            ({
                let s = old(self).program@;
                let start = old(self).position - 1;
                let end = start + 1 + run_len(s, start + 1, Run::Word);
                &&& final(self).position == end
                &&& final(self).tokens.deep_view() == old(self).tokens.deep_view().push(
                    TokenView { line: old(self).line, kind: word_kind(s.subrange(start, end)) },
                )
            }),
            final(self).line == old(self).line,
            final(self).program == old(self).program,
            final(self).file_path == old(self).file_path,
    {
        let start = self.position - 1;
        self.skip_run(Run::Word);
        let kind = self.word_token(start, self.position);
        self.push_token(kind);
    }

    /// Pushes `long` and moves on if the current character is `second`, else pushes `short`.
    fn push_either(&mut self, second: char, long: TokenKind, short: TokenKind)
        requires
            0 < old(self).position <= old(self).program.len(),
        ensures
            ({
                let lexeme = two_char(
                    old(self).program@,
                    old(self).position - 1,
                    old(self).line,
                    second,
                    long.deep_view(),
                    short.deep_view(),
                );
                &&& final(self).position == lexeme.next
                &&& final(self).tokens.deep_view() == with_token(
                    old(self).tokens.deep_view(),
                    lexeme.kind,
                    old(self).line,
                )
            }),
            final(self).line == old(self).line,
            final(self).program == old(self).program,
            final(self).file_path == old(self).file_path,
    {
        if self.current() == Some(second) {
            self.push_token(long);
            self.position += 1;
        } else {
            self.push_token(short);
        }
    }

    /// Reads the lexeme at the current position.
    fn parse_token(&mut self) -> (r: Result<(), LexError>)
        requires
            old(self).position < old(self).program.len(),
        ensures
            final(self).program == old(self).program,
            final(self).file_path == old(self).file_path,
            match lexeme_at(old(self).program@, old(self).position as int, old(self).line) {
                Ok(lexeme) => {
                    &&& r is Ok
                    &&& final(self).position == lexeme.next
                    &&& final(self).line == lexeme.line
                    &&& final(self).tokens.deep_view() == with_token(
                        old(self).tokens.deep_view(),
                        lexeme.kind,
                        old(self).line,
                    )
                },
                Err(e) => r == Err::<(), LexError>(e) && final(self).tokens == old(self).tokens,
            },
    {
        let character = self.program[self.position];
        self.position += 1;
        if character == '(' {
            self.push_token(TokenKind::LParen);
        } else if character == ')' {
            self.push_token(TokenKind::RParen);
        } else if character == '{' {
            self.push_token(TokenKind::LBrace);
        } else if character == '}' {
            self.push_token(TokenKind::RBrace);
        } else if character == '[' {
            self.push_token(TokenKind::LBracket);
        } else if character == ']' {
            self.push_token(TokenKind::RBracket);
        } else if character == ',' {
            self.push_token(TokenKind::Comma);
        } else if character == ':' {
            self.push_token(TokenKind::Colon);
        } else if character == '+' {
            self.push_token(TokenKind::Op(Op::Add));
        } else if character == '-' {
            self.push_token(TokenKind::Op(Op::Sub));
        } else if character == '*' {
            self.push_token(TokenKind::Op(Op::Mul));
        } else if character == '/' {
            if self.current() == Some('=') {
                self.push_token(TokenKind::Op(Op::Ne));
                self.position += 1;
            } else {
                self.push_either('/', TokenKind::Op(Op::FloorDiv), TokenKind::Op(Op::Div));
            }
        } else if character == '%' {
            self.push_token(TokenKind::Op(Op::Mod));
        } else if character == '^' {
            self.push_token(TokenKind::Op(Op::Pow));
        } else if character == '<' {
            self.push_either('=', TokenKind::Op(Op::Le), TokenKind::Op(Op::Lt));
        } else if character == '>' {
            self.push_either('=', TokenKind::Op(Op::Ge), TokenKind::Op(Op::Gt));
        } else if character == '=' {
            self.push_either('=', TokenKind::Op(Op::Eq), TokenKind::Assign);
        } else if character == '"' {
            return self.parse_string();
        } else if character == '#' {
            self.skip_comment();
        } else if character == '\n' {
            self.bump_line();
        } else if Self::digit(character) {
            self.parse_number();
        } else if Self::letter(character) || character == '_' {
            self.parse_identifier();
        }
        Ok(())
    }

    /// Reads the whole source text into tokens, or stops at the first error.
    ///
    /// A failed run hands out no tokens at all. Reading starts afresh on each call.
    pub fn tokenize(&mut self) -> (r: Result<Vec<Token>, FlushError>)
        ensures
            final(self).source() == old(self).source(),
            final(self).file() == old(self).file(),
            match r {
                Ok(tokens) => tokens_of(old(self).source()) == Ok::<Seq<TokenView>, LexError>(
                    tokens.deep_view(),
                ),
                Err(error) => match tokens_of(old(self).source()) {
                    Ok(_) => false,
                    Err(e) => error.deep_view() == lex_report(old(self).file(), e),
                },
            },
    {
        self.tokens = Vec::new();
        self.position = 0;
        self.line = 1;
        assert(self.tokens.deep_view() =~= Seq::<TokenView>::empty());
        while !self.is_at_end()
            invariant
                self.program == old(self).program,
                self.file_path == old(self).file_path,
                self.position <= self.program.len(),
                tokens_of(self.program@) == tokens_from(
                    self.program@,
                    self.position as int,
                    self.line,
                    self.tokens.deep_view(),
                ),
            decreases self.program.len() - self.position,
        {
            proof {
                lemma_lexeme_advances(self.program@, self.position as int, self.line);
            }
            match self.parse_token() {
                Ok(()) => {},
                Err(e) => {
                    return Err(self.report(e));
                },
            }
        }
        let mut tokens: Vec<Token> = Vec::new();
        core::mem::swap(&mut tokens, &mut self.tokens);
        Ok(tokens)
    }

    /// The error `e` as reported for this lexer's file.
    fn report(&self, e: LexError) -> (error: FlushError)
        ensures
            error.deep_view() == lex_report(self.file_path@, e),
    {
        let message = match e.kind {
            LexErrorKind::UnterminatedString => String::from_str("Unterminated string"),
            LexErrorKind::IllegalNewlineInString => String::from_str("Illegal newline in a string"),
        };
        FlushError(self.file_path.clone(), e.line, message)
    }
}

/// A run that nothing interrupts reaches the end of the text.
proof fn lemma_run_to_end(s: Seq<char>, from: int, run: Run)
    requires
        0 <= from <= s.len(),
        forall|i: int| from <= i < s.len() ==> in_run(run, #[trigger] s[i]),
    ensures
        from + run_len(s, from, run) == s.len(),
    decreases s.len() - from,
{
    if from < s.len() {
        lemma_run_to_end(s, from + 1, run);
    }
}

/// A text of digits and decimal points that starts with a digit is read as one
/// token on line one: an integer where it is all digits and fits, else a float
/// with the text as written.
pub proof fn lemma_number_alone(t: Seq<char>)
    requires
        t.len() > 0,
        is_digit(t[0]),
        forall|i: int| 0 <= i < t.len() ==> in_run(Run::Number, #[trigger] t[i]),
    ensures
        tokens_of(t) == Ok::<Seq<TokenView>, LexError>(
            seq![TokenView { line: 1, kind: number_kind(t) }],
        ),
{
    lemma_run_to_end(t, 1, Run::Number);
    assert(t.subrange(0, t.len() as int) =~= t);
    let lexeme = lexeme_at(t, 0, 1)->Ok_0;
    assert(lexeme.next == t.len());
    assert(lexeme.kind == Some(number_kind(t)));
    let acc = with_token(Seq::empty(), lexeme.kind, 1);
    assert(acc =~= seq![TokenView { line: 1, kind: number_kind(t) }]);
    assert(tokens_from(t, t.len() as int, 1, acc) == Ok::<Seq<TokenView>, LexError>(acc));
}

/// The numeral of a number that fits in 32 bits with a sign is read as the one
/// integer token of that number; the numeral of a larger number as a float.
pub proof fn lemma_integer_literal(n: nat)
    ensures
        n <= i32::MAX ==> tokens_of(decimal(n)) == Ok::<Seq<TokenView>, LexError>(
            seq![TokenView { line: 1, kind: TokenKindView::Int(n as i32) }],
        ),
        n > i32::MAX ==> tokens_of(decimal(n)) == Ok::<Seq<TokenView>, LexError>(
            seq![TokenView { line: 1, kind: TokenKindView::Float(decimal(n)) }],
        ),
{
    lemma_decimal_denotes(n);
    let t = decimal(n);
    assert(is_digit(t[0]));
    assert forall|i: int| 0 <= i < t.len() implies in_run(Run::Number, #[trigger] t[i]) by {
        assert(is_digit(t[i]));
    }
    lemma_number_alone(t);
}

/// A number written with a decimal point is read as a float with the text as written.
pub proof fn lemma_decimal_point(t: Seq<char>, at: int)
    requires
        t.len() > 0,
        is_digit(t[0]),
        forall|i: int| 0 <= i < t.len() ==> in_run(Run::Number, #[trigger] t[i]),
        0 <= at < t.len(),
        t[at] == '.',
    ensures
        tokens_of(t) == Ok::<Seq<TokenView>, LexError>(
            seq![TokenView { line: 1, kind: TokenKindView::Float(t) }],
        ),
{
    lemma_number_alone(t);
    assert(!all_digits(t)) by {
        if all_digits(t) {
            assert(is_digit(t[at]));
        }
    }
}

/// A text that is one comment, with or without its newline, holds no token.
pub proof fn lemma_comment_alone(t: Seq<char>)
    requires
        t.len() > 0,
        t[0] == '#',
        forall|i: int| 1 <= i < t.len() - 1 ==> #[trigger] t[i] != '\n',
    ensures
        tokens_of(t) == Ok::<Seq<TokenView>, LexError>(Seq::empty()),
{
    let body = if t.last() == '\n' && t.len() > 1 {
        t.len() - 1
    } else {
        t.len() as int
    };
    lemma_run_stops(t, 1, Run::Comment, body);
    let lexeme = lexeme_at(t, 0, 1)->Ok_0;
    assert(lexeme.next == t.len());
    assert(lexeme.kind is None);
    assert(tokens_from(t, t.len() as int, lexeme.line, Seq::empty()) == Ok::<
        Seq<TokenView>,
        LexError,
    >(Seq::empty()));
}

/// A run that nothing interrupts before `end`, and that ends there, has the
/// length up to there.
proof fn lemma_run_stops(s: Seq<char>, from: int, run: Run, end: int)
    requires
        0 <= from <= end <= s.len(),
        forall|i: int| from <= i < end ==> in_run(run, #[trigger] s[i]),
        end < s.len() ==> !in_run(run, s[end]),
    ensures
        from + run_len(s, from, run) == end,
    decreases end - from,
{
    if from < end {
        lemma_run_stops(s, from + 1, run, end);
    }
}

/// A text that opens a string and never closes it, on a single line, fails
/// as an unterminated string on line one, whatever comes before the quote on
/// that line being read first.
pub proof fn lemma_unterminated_string(t: Seq<char>)
    requires
        t.len() > 0,
        t[0] == '"',
        forall|i: int| 1 <= i < t.len() ==> #[trigger] t[i] != '"' && t[i] != '\n',
    ensures
        tokens_of(t) == Err::<Seq<TokenView>, LexError>(
            LexError { line: 1, kind: LexErrorKind::UnterminatedString },
        ),
{
    lemma_run_to_end(t, 1, Run::Quoted);
}

/// A text without a double quote is read without error, whatever else it
/// holds: only a string literal can fail.
pub proof fn lemma_only_strings_fail(s: Seq<char>)
    requires
        forall|i: int| 0 <= i < s.len() ==> #[trigger] s[i] != '"',
    ensures
        tokens_of(s) is Ok,
{
    lemma_quoteless_from(s, 0, 1, Seq::empty());
}

/// A text without a double quote is read without error from any place on.
proof fn lemma_quoteless_from(s: Seq<char>, pos: int, line: usize, acc: Seq<TokenView>)
    requires
        0 <= pos,
        forall|i: int| 0 <= i < s.len() ==> #[trigger] s[i] != '"',
    ensures
        tokens_from(s, pos, line, acc) is Ok,
    decreases s.len() - pos,
{
    if pos < s.len() {
        lemma_lexeme_advances(s, pos, line);
        let lexeme = lexeme_at(s, pos, line)->Ok_0;
        lemma_quoteless_from(s, lexeme.next, lexeme.line, with_token(acc, lexeme.kind, line));
    }
}

} // verus!

//! The lexical analyzer: turns source text into a token sequence.
//!
//! Scanning is a single left-to-right pass with one character of lookahead and
//! no backtracking. Offsets count characters from the start of the input. The
//! whole pass is specified by [`lex_from`], a recursive model of the scan, and
//! [`Lexer::tokenize`] is proved to return exactly what the model says.

use crate::ast::{Operator, Token, TokenModel, TokenType};
use crate::error::{Error, ErrorModel, ErrorType, Pos};
use vstd::prelude::*;
use vstd::string::*;

verus! {

/// The sentinel the cursor returns once the input is exhausted. It is only a
/// sentinel: the cursor's position tells the true end of the input apart from
/// an embedded NUL character, which the scan reports as unrecognized.
pub const EOF_CHAR: char = '\0';

/// The explicit whitespace set: tab, LF, VT, FF, CR, space, NEL, the bidi
/// marks, and the line/paragraph separators. Not the full Unicode property.
pub open spec fn spec_is_whitespace(c: char) -> bool {
    c == '\u{0009}' || c == '\u{000A}' || c == '\u{000B}' || c == '\u{000C}' || c == '\u{000D}'
        || c == '\u{0020}' || c == '\u{0085}' || c == '\u{200E}' || c == '\u{200F}'
        || c == '\u{2028}' || c == '\u{2029}'
}

/// ASCII decimal digits only.
pub open spec fn spec_is_digit(c: char) -> bool {
    '0' <= c && c <= '9'
}

/// ASCII letters and `_` may start an identifier.
pub open spec fn spec_is_id_start(c: char) -> bool {
    ('a' <= c && c <= 'z') || ('A' <= c && c <= 'Z') || c == '_'
}

/// ASCII letters, digits and `_` may continue an identifier.
pub open spec fn spec_is_id_continue(c: char) -> bool {
    ('a' <= c && c <= 'z') || ('A' <= c && c <= 'Z') || ('0' <= c && c <= '9') || c == '_'
}

/// Check if character is a whitespace character
pub fn is_whitespace(c: char) -> (r: bool)
    ensures
        r == spec_is_whitespace(c),
{
    match c {
        | '\u{0009}' // \t
            | '\u{000A}' // \n
            | '\u{000B}' // vertical tab
            | '\u{000C}' // form feed
            | '\u{000D}' // \r
            | '\u{0020}' // space

            // NEXT LINE from latin1
            | '\u{0085}'

            // Bidi markers
            | '\u{200E}' // LEFT-TO-RIGHT MARK
            | '\u{200F}' // RIGHT-TO-LEFT MARK

            // Dedicated whitespace characters from Unicode
            | '\u{2028}' // LINE SEPARATOR
            | '\u{2029}' // PARAGRAPH SEPARATOR
            => true,
        _ => false,
    }
}

/// Check if ID is continue
pub fn is_id_continue(c: char) -> (r: bool)
    ensures
        r == spec_is_id_continue(c),
{
    ('a' <= c && c <= 'z') || ('A' <= c && c <= 'Z') || ('0' <= c && c <= '9') || c == '_'
}

/// Get start of ID (excluding number)
pub fn is_id_start(c: char) -> (r: bool)
    ensures
        r == spec_is_id_start(c),
{
    ('a' <= c && c <= 'z') || ('A' <= c && c <= 'Z') || c == '_'
}

/// The character at offset `i`, or [`EOF_CHAR`] outside the input.
pub open spec fn char_at(s: Seq<char>, i: int) -> char {
    if 0 <= i < s.len() {
        s[i]
    } else {
        EOF_CHAR
    }
}

/// The end of the maximal run of digits starting at `i`.
pub open spec fn digit_run_end(s: Seq<char>, i: int) -> int
    decreases s.len() - i
        when 0 <= i <= s.len()
{
    if i < s.len() && spec_is_digit(s[i]) {
        digit_run_end(s, i + 1)
    } else {
        i
    }
}

/// The end of the maximal run of identifier-continue characters starting at `i`.
pub open spec fn ident_run_end(s: Seq<char>, i: int) -> int
    decreases s.len() - i
        when 0 <= i <= s.len()
{
    if i < s.len() && spec_is_id_continue(s[i]) {
        ident_run_end(s, i + 1)
    } else {
        i
    }
}

pub proof fn lemma_digit_run_end(s: Seq<char>, i: int)
    requires
        0 <= i <= s.len(),
    ensures
        i <= digit_run_end(s, i) <= s.len(),
        forall|k: int| i <= k < digit_run_end(s, i) ==> spec_is_digit(s[k]),
        digit_run_end(s, i) < s.len() ==> !spec_is_digit(s[digit_run_end(s, i)]),
    decreases s.len() - i,
{
    if i < s.len() && spec_is_digit(s[i]) {
        lemma_digit_run_end(s, i + 1);
    }
}

pub proof fn lemma_ident_run_end(s: Seq<char>, i: int)
    requires
        0 <= i <= s.len(),
    ensures
        i <= ident_run_end(s, i) <= s.len(),
        forall|k: int| i <= k < ident_run_end(s, i) ==> spec_is_id_continue(s[k]),
        ident_run_end(s, i) < s.len() ==> !spec_is_id_continue(s[ident_run_end(s, i)]),
    decreases s.len() - i,
{
    if i < s.len() && spec_is_id_continue(s[i]) {
        lemma_ident_run_end(s, i + 1);
    }
}

/// A maximal run is pinned down by its endpoints: if everything in `[i, j)`
/// is a digit and `j` is the end of the input or not a digit, then `j` is the
/// run's end.
pub proof fn lemma_digit_run_end_unique(s: Seq<char>, i: int, j: int)
    requires
        0 <= i <= j <= s.len(),
        forall|k: int| i <= k < j ==> spec_is_digit(s[k]),
        j < s.len() ==> !spec_is_digit(s[j]),
    ensures
        digit_run_end(s, i) == j,
    decreases j - i,
{
    if i < j {
        lemma_digit_run_end_unique(s, i + 1, j);
    }
}

pub proof fn lemma_ident_run_end_unique(s: Seq<char>, i: int, j: int)
    requires
        0 <= i <= j <= s.len(),
        forall|k: int| i <= k < j ==> spec_is_id_continue(s[k]),
        j < s.len() ==> !spec_is_id_continue(s[j]),
    ensures
        ident_run_end(s, i) == j,
    decreases j - i,
{
    if i < j {
        lemma_ident_run_end_unique(s, i + 1, j);
    }
}

/// A token model with the given kind, text and span.
pub open spec fn tok_model(tok_type: TokenType, value: Seq<char>, start: int, end: int) -> TokenModel {
    TokenModel { tok_type, value, start, end }
}

/// A lexing error with the given message and span.
pub open spec fn lex_err(message: Seq<char>, start: int, end: int) -> ErrorModel {
    ErrorModel { message, error_type: ErrorType::LexError, start, end }
}

/// The message reported when a digit must follow `marker` and does not.
pub open spec fn expected_number_msg(marker: char) -> Seq<char> {
    "expected number after `"@.push(marker).push('`')
}

/// The message reported for a character no rule recognizes.
pub open spec fn unrecognized_msg(c: char) -> Seq<char> {
    "unrecognized character "@.push(c)
}

/// The numeric-literal grammar, scanned from the first digit at `i`:
/// `digit+` is an integer; `digit+ '.' digit+ (('e'|'E') digit+)?` and
/// `digit+ ('e'|'E') digit+` are floats. A `.` or exponent marker commits to
/// a float: a missing digit after it is an error at the single offending
/// position, never a fallback to an integer token. On success the scan
/// resumes at the returned offset.
pub open spec fn spec_number(s: Seq<char>, i: int) -> Result<(TokenModel, int), ErrorModel> {
    let d = digit_run_end(s, i + 1);
    if d < s.len() && s[d] == '.' {
        let f = digit_run_end(s, d + 1);
        if f == d + 1 {
            Err(lex_err(expected_number_msg('.'), d + 1, d + 2))
        } else if f < s.len() && (s[f] == 'e' || s[f] == 'E') {
            let g = digit_run_end(s, f + 1);
            if g == f + 1 {
                Err(lex_err(expected_number_msg(s[f]), f + 1, f + 2))
            } else {
                Ok((tok_model(TokenType::Float, s.subrange(i, g), i, g), g))
            }
        } else {
            Ok((tok_model(TokenType::Float, s.subrange(i, f), i, f), f))
        }
    } else if d < s.len() && (s[d] == 'e' || s[d] == 'E') {
        let g = digit_run_end(s, d + 1);
        if g == d + 1 {
            Err(lex_err(expected_number_msg(s[d]), d + 1, d + 2))
        } else {
            Ok((tok_model(TokenType::Float, s.subrange(i, g), i, g), g))
        }
    } else {
        Ok((tok_model(TokenType::Integer, s.subrange(i, d), i, d), d))
    }
}

/// An identifier scanned from its start at `i`, classified by exact text:
/// `as` is the cast operator, `true` and `false` are the boolean literals,
/// anything else is an identifier. The scan resumes at the returned offset.
pub open spec fn spec_identifier(s: Seq<char>, i: int) -> (TokenModel, int) {
    let j = ident_run_end(s, i + 1);
    let text = s.subrange(i, j);
    let tok_type = if text == "as"@ {
        TokenType::Operator(Operator::As)
    } else if text == "true"@ {
        TokenType::TRUE
    } else if text == "false"@ {
        TokenType::FALSE
    } else {
        TokenType::Identifier
    };
    (tok_model(tok_type, text, i, j), j)
}

/// The characters that form a token on their own, or end a one-or-two
/// character operator.
pub open spec fn spec_is_single_char(c: char) -> bool {
    c == '(' || c == ')' || c == '+' || c == '-' || c == '/' || c == '*' || c == '%' || c == '&'
        || c == '|' || c == '~' || c == '!' || c == '>' || c == '<' || c == '^'
}

/// The token kind of a character standing alone.
pub open spec fn spec_single_char_type(c: char) -> TokenType {
    if c == '(' {
        TokenType::LP
    } else if c == ')' {
        TokenType::RP
    } else {
        TokenType::Operator(
            if c == '+' {
                Operator::Add
            } else if c == '-' {
                Operator::Sub
            } else if c == '/' {
                Operator::Div
            } else if c == '*' {
                Operator::Mul
            } else if c == '%' {
                Operator::Mod
            } else if c == '&' {
                Operator::BAnd
            } else if c == '|' {
                Operator::BOr
            } else if c == '~' {
                Operator::BNot
            } else if c == '!' {
                Operator::LNot
            } else if c == '>' {
                Operator::GT
            } else if c == '<' {
                Operator::LT
            } else {
                Operator::BXor
            },
        )
    }
}

/// A one-character token at `i`.
pub open spec fn one_char_tok(c: char, i: int) -> TokenModel {
    tok_model(spec_single_char_type(c), Seq::empty(), i, i + 1)
}

/// A two-character operator token at `i`.
pub open spec fn two_char_tok(op: Operator, i: int) -> TokenModel {
    tok_model(TokenType::Operator(op), Seq::empty(), i, i + 2)
}

/// Cons a token onto the rest of a scan, passing an error through.
pub open spec fn prepend_token(t: TokenModel, r: Result<Seq<TokenModel>, ErrorModel>) -> Result<
    Seq<TokenModel>,
    ErrorModel,
> {
    match r {
        Ok(ts) => Ok(seq![t] + ts),
        Err(e) => Err(e),
    }
}

/// For the two-character operators: the operator formed by `first` together
/// with the next character, if any.
pub open spec fn spec_pair_op(first: char, next: char) -> Option<Operator> {
    if first == '!' && next == '=' {
        Some(Operator::NEql)
    } else if first == '|' && next == '|' {
        Some(Operator::LOr)
    } else if first == '&' && next == '&' {
        Some(Operator::LAnd)
    } else if first == '*' && next == '*' {
        Some(Operator::Pow)
    } else if first == '/' && next == '/' {
        Some(Operator::IntDiv)
    } else if first == '>' && next == '=' {
        Some(Operator::GE)
    } else if first == '>' && next == '>' {
        Some(Operator::BitShiftR)
    } else if first == '<' && next == '=' {
        Some(Operator::LE)
    } else if first == '<' && next == '<' {
        Some(Operator::BitShiftL)
    } else if first == '=' && next == '=' {
        Some(Operator::Eql)
    } else {
        None
    }
}

/// The characters that begin a one-or-two character operator.
pub open spec fn spec_is_pair_start(c: char) -> bool {
    c == '!' || c == '|' || c == '&' || c == '*' || c == '/' || c == '>' || c == '<'
}

/// The recursive model of the whole scan from offset `i`: the token sequence
/// it produces, or the first error. The scan consumes the entire input and
/// closes the sequence with one `EOF` token whose empty span sits at the
/// input's end; a character no rule recognizes — an embedded NUL among them —
/// is an error at that character's span.
pub open spec fn lex_from(s: Seq<char>, i: int) -> Result<Seq<TokenModel>, ErrorModel>
    decreases s.len() - i
        when 0 <= i <= s.len()
        via lex_from_decreases
{
    if i >= s.len() {
        Ok(seq![tok_model(TokenType::EOF, Seq::empty(), i, i)])
    } else {
        let c = s[i];
        if spec_is_digit(c) {
            match spec_number(s, i) {
                Ok((t, j)) => prepend_token(t, lex_from(s, j)),
                Err(e) => Err(e),
            }
        } else if spec_is_whitespace(c) {
            lex_from(s, i + 1)
        } else if spec_is_id_start(c) {
            let (t, j) = spec_identifier(s, i);
            prepend_token(t, lex_from(s, j))
        } else if spec_is_pair_start(c) {
            match spec_pair_op(c, char_at(s, i + 1)) {
                Some(op) => prepend_token(two_char_tok(op, i), lex_from(s, i + 2)),
                None => prepend_token(one_char_tok(c, i), lex_from(s, i + 1)),
            }
        } else if c == '+' || c == '-' || c == '~' || c == '^' || c == '%' || c == '(' || c == ')' {
            prepend_token(one_char_tok(c, i), lex_from(s, i + 1))
        } else if c == '=' {
            if char_at(s, i + 1) == '=' {
                prepend_token(two_char_tok(Operator::Eql, i), lex_from(s, i + 2))
            } else {
                Err(lex_err(unrecognized_msg(c), i, i + 1))
            }
        } else {
            Err(lex_err(unrecognized_msg(c), i, i + 1))
        }
    }
}

/// The bounds of a successful numeric-literal scan: it consumes at least one
/// character and stays within the input.
pub proof fn lemma_spec_number_bounds(s: Seq<char>, i: int)
    requires
        0 <= i < s.len(),
    ensures
        spec_number(s, i) matches Ok((t, j)) ==> i < j <= s.len(),
{
    lemma_digit_run_end(s, i + 1);
    let d = digit_run_end(s, i + 1);
    if d < s.len() && s[d] == '.' {
        lemma_digit_run_end(s, d + 1);
        let f = digit_run_end(s, d + 1);
        if f < s.len() && (s[f] == 'e' || s[f] == 'E') {
            lemma_digit_run_end(s, f + 1);
        }
    } else if d < s.len() && (s[d] == 'e' || s[d] == 'E') {
        lemma_digit_run_end(s, d + 1);
    }
}

#[via_fn]
proof fn lex_from_decreases(s: Seq<char>, i: int) {
    if 0 <= i < s.len() {
        if spec_is_digit(s[i]) {
            lemma_spec_number_bounds(s, i);
        } else if spec_is_id_start(s[i]) {
            lemma_ident_run_end(s, i + 1);
        }
    }
}

/// The model of the whole pass over `s`.
pub open spec fn spec_tokenize(s: Seq<char>) -> Result<Seq<TokenModel>, ErrorModel> {
    lex_from(s, 0)
}

/// The models of a sequence of tokens.
pub open spec fn views_of(ts: Seq<Token>) -> Seq<TokenModel> {
    ts.map_values(|t: Token| t@)
}

/// Tokens already produced, followed by the rest of a scan.
pub open spec fn prepend_all(d: Seq<TokenModel>, r: Result<Seq<TokenModel>, ErrorModel>) -> Result<
    Seq<TokenModel>,
    ErrorModel,
> {
    match r {
        Ok(ts) => Ok(d + ts),
        Err(e) => Err(e),
    }
}

proof fn lemma_prepend_all_shift(
    d: Seq<TokenModel>,
    t: TokenModel,
    r: Result<Seq<TokenModel>, ErrorModel>,
)
    ensures
        prepend_all(d, prepend_token(t, r)) == prepend_all(d.push(t), r),
{
    match r {
        Ok(ts) => {
            assert(d + (seq![t] + ts) =~= d.push(t) + ts);
        },
        Err(_) => {},
    }
}

proof fn lemma_views_of_push(ts: Seq<Token>, t: Token)
    ensures
        views_of(ts.push(t)) == views_of(ts).push(t@),
{
    assert(views_of(ts.push(t)) =~= views_of(ts).push(t@));
}

/// The cursor over the source text: the text and the count of characters
/// consumed so far.
pub struct Lexer<'a> {
    pub file_contents: &'a str,
    pub pos: usize,
}

impl<'a> Lexer<'a> {
    /// The cursor can always step one character past the end of the input.
    pub open spec fn wf(&self) -> bool {
        self.file_contents@.len() < usize::MAX
    }

    pub fn new(file_contents: &'a str) -> (l: Self)
        requires
            file_contents@.len() < usize::MAX,
        ensures
            l.file_contents == file_contents,
            l.pos == 0,
            l.wf(),
    {
        Self { file_contents, pos: 0 }
    }

    /// Advances in character stream
    pub fn bump_char(&mut self) -> (c: char)
        requires
            old(self).wf(),
            old(self).pos <= old(self).file_contents@.len(),
        ensures
            final(self).file_contents == old(self).file_contents,
            final(self).pos == old(self).pos + 1,
            c == char_at(old(self).file_contents@, old(self).pos as int),
    {
        let c = self.peek_char();
        self.pos = self.pos + 1;
        c
    }

    /// Doesn't advance
    pub fn peek_char(&self) -> (c: char)
        ensures
            c == char_at(self.file_contents@, self.pos as int),
    {
        if self.pos < self.file_contents.unicode_len() {
            self.file_contents.get_char(self.pos)
        } else {
            EOF_CHAR
        }
    }

    /// The token whose text is the last `next_len` characters consumed.
    pub fn crate_tok(&self, tok_type: TokenType, next_len: usize) -> (t: Token)
        requires
            next_len <= self.pos,
            self.pos <= self.file_contents@.len(),
        ensures
            t@ == tok_model(
                tok_type,
                self.file_contents@.subrange(self.pos - next_len, self.pos as int),
                self.pos - next_len,
                self.pos as int,
            ),
    {
        let start = self.pos - next_len;
        let text = self.file_contents.substring_char(start, self.pos);
        Token::new(tok_type, text.to_owned(), start, self.pos)
    }

    /// Consumes characters while `predicate` accepts them; `p` is the
    /// meaning of `predicate`. Stops at the end of the input or at the first
    /// rejected character, and returns how many characters it consumed.
    pub fn len_eat_while<F: Fn(char) -> bool>(
        &mut self,
        predicate: F,
        Ghost(p): Ghost<spec_fn(char) -> bool>,
    ) -> (eaten: usize)
        requires
            old(self).wf(),
            old(self).pos <= old(self).file_contents@.len(),
            forall|c: char| #[trigger] call_requires(predicate, (c,)),
            forall|c: char, b: bool| #[trigger] call_ensures(predicate, (c,), b) ==> b == p(c),
        ensures
            final(self).file_contents == old(self).file_contents,
            final(self).pos == old(self).pos + eaten,
            final(self).pos <= old(self).file_contents@.len(),
            forall|k: int|
                old(self).pos <= k < final(self).pos ==> p(old(self).file_contents@[k]),
            final(self).pos < old(self).file_contents@.len() ==> !p(
                old(self).file_contents@[final(self).pos as int],
            ),
    {
        let ghost s = self.file_contents@;
        let ghost start = self.pos as int;
        let n = self.file_contents.unicode_len();
        let mut eaten: usize = 0;
        loop
            invariant
                self.wf(),
                self.file_contents == old(self).file_contents,
                self.file_contents@ == s,
                n == s.len(),
                start + eaten == self.pos,
                0 <= start <= self.pos <= s.len(),
                forall|k: int| start <= k < self.pos ==> p(s[k]),
                forall|c: char| #[trigger] call_requires(predicate, (c,)),
                forall|c: char, b: bool| #[trigger] call_ensures(predicate, (c,), b) ==> b == p(c),
            ensures
                self.pos < s.len() ==> !p(s[self.pos as int]),
            decreases s.len() - self.pos,
        {
            if self.pos >= n {
                break;
            }
            let val = self.peek_char();
            let keep = predicate(val);
            if !keep {
                break;
            }
            self.bump_char();
            eaten = eaten + 1;
        }

        eaten
    }

    /// After a `.` or exponent marker (`err_val`), consumes the digits that
    /// must follow; with none, reports the error at the single offending
    /// position. Adds what it consumed, plus one for the marker itself, to
    /// `next_len`.
    pub fn number_err(&mut self, next_len: &mut usize, err_val: &'static str) -> (r: Result<
        (),
        Error,
    >)
        requires
            old(self).wf(),
            old(self).pos <= old(self).file_contents@.len(),
            *old(next_len) <= old(self).pos,
            err_val@.len() == 1,
        ensures
            final(self).file_contents == old(self).file_contents,
            final(self).pos == digit_run_end(old(self).file_contents@, old(self).pos as int),
            final(self).pos <= old(self).file_contents@.len(),
            *final(next_len) == *old(next_len) + (final(self).pos - old(self).pos) + 1,
            ({
                let s = old(self).file_contents@;
                let i = old(self).pos as int;
                if digit_run_end(s, i) == i {
                    r matches Err(e) && e@ == lex_err(
                        expected_number_msg(err_val@[0]),
                        i,
                        i + 1,
                    )
                } else {
                    r is Ok
                }
            }),
    {
        let ghost s = self.file_contents@;
        let ghost i = self.pos as int;
        let eaten = self.len_eat_while(
            (|c: char| -> (b: bool)
                ensures
                    b == spec_is_digit(c),
                { '0' <= c && c <= '9' }),
            Ghost(|c: char| spec_is_digit(c)),
        );
        proof {
            lemma_digit_run_end_unique(s, i, self.pos as int);
        }
        let inc = eaten + 1;
        *next_len += inc;
        if inc == 1 {
            let mut message = "expected number after `".to_owned();
            message.append(err_val);
            message.append("`");
            proof {
                reveal_strlit("`");
                assert(message@ =~= expected_number_msg(err_val@[0]));
            }
            Err(Error::new(
                message,
                ErrorType::LexError,
                Pos::new(self.pos, self.pos + 1),
            ))
        } else {
            Ok(())
        }
    }

    /// Scans a numeric literal whose first digit was just consumed.
    pub fn number(&mut self) -> (r: Result<Token, Error>)
        requires
            old(self).wf(),
            1 <= old(self).pos <= old(self).file_contents@.len(),
        ensures
            final(self).file_contents == old(self).file_contents,
            ({
                let s = old(self).file_contents@;
                let i = old(self).pos - 1;
                match spec_number(s, i) {
                    Ok((tm, j)) => r matches Ok(t) && t@ == tm && final(self).pos == j,
                    Err(em) => r matches Err(e) && e@ == em,
                }
            }),
    {
        let ghost s = self.file_contents@;
        let ghost i = self.pos - 1int;
        let eaten = self.len_eat_while(
            (|c: char| -> (b: bool)
                ensures
                    b == spec_is_digit(c),
                { '0' <= c && c <= '9' }),
            Ghost(|c: char| spec_is_digit(c)),
        );
        proof {
            lemma_digit_run_end_unique(s, i + 1, self.pos as int);
        }
        let mut next_len = eaten + 1;
        let next_tok = self.peek_char();
        match next_tok {
            '.' => {
                self.bump_char();
                proof {
                    reveal_strlit(".");
                }
                match self.number_err(&mut next_len, ".") {
                    Err(e) => {
                        return Err(e);
                    },
                    Ok(()) => {},
                }

                // Decimal
                let next_tok = self.peek_char();
                match next_tok {
                    'e' | 'E' => {
                        // 10.124E2193
                        self.bump_char();
                        proof {
                            reveal_strlit("e");
                            reveal_strlit("E");
                        }
                        match self.number_err(
                            &mut next_len,
                            if next_tok == 'e' { "e" } else { "E" },
                        ) {
                            Err(e) => {
                                return Err(e);
                            },
                            Ok(()) => {},
                        }

                        Ok(self.crate_tok(TokenType::Float, next_len))
                    },
                    _ => Ok(self.crate_tok(TokenType::Float, next_len)),
                }
            },
            'e' | 'E' => {
                // 10E100
                self.bump_char();
                proof {
                    reveal_strlit("e");
                    reveal_strlit("E");
                }
                match self.number_err(&mut next_len, if next_tok == 'e' { "e" } else { "E" }) {
                    Err(e) => {
                        return Err(e);
                    },
                    Ok(()) => {},
                }

                Ok(self.crate_tok(TokenType::Float, next_len))
            },
            _ => Ok(self.crate_tok(TokenType::Integer, next_len)),
        }
    }

    /// Scans an identifier whose first character was just consumed, and
    /// classifies keywords by exact text.
    pub fn identifier(&mut self) -> (t: Token)
        requires
            old(self).wf(),
            1 <= old(self).pos <= old(self).file_contents@.len(),
        ensures
            final(self).file_contents == old(self).file_contents,
            ({
                let (tm, j) = spec_identifier(old(self).file_contents@, old(self).pos - 1);
                t@ == tm && final(self).pos == j
            }),
    {
        let ghost s = self.file_contents@;
        let ghost i = self.pos - 1int;
        let eaten = self.len_eat_while(
            (|c: char| -> (b: bool)
                ensures
                    b == spec_is_id_continue(c),
                { is_id_continue(c) }),
            Ghost(|c: char| spec_is_id_continue(c)),
        );
        proof {
            lemma_ident_run_end_unique(s, i + 1, self.pos as int);
        }
        let next_len = eaten + 1;
        let start = self.pos - next_len;
        let ident = self.file_contents.substring_char(start, self.pos);
        let tok_type = if crate::strutil::str_content_eq(ident, "as") {
            TokenType::Operator(Operator::As)
        } else if crate::strutil::str_content_eq(ident, "true") {
            TokenType::TRUE
        } else if crate::strutil::str_content_eq(ident, "false") {
            TokenType::FALSE
        } else {
            TokenType::Identifier
        };
        Token::new(tok_type, ident.to_owned(), start, self.pos)
    }

    /// One character literals
    pub fn new_literal(&self, c: char) -> (t: Token)
        requires
            1 <= self.pos,
            spec_is_single_char(c),
        ensures
            t@ == one_char_tok(c, self.pos - 1),
    {
        Token::new(
            match c {
                '(' => TokenType::LP,
                ')' => TokenType::RP,

                _ => TokenType::Operator(
                    match c {
                        '+' => Operator::Add,
                        '-' => Operator::Sub,
                        '/' => Operator::Div,
                        '*' => Operator::Mul,
                        '%' => Operator::Mod,

                        '&' => Operator::BAnd,
                        '|' => Operator::BOr,
                        '~' => Operator::BNot,
                        '!' => Operator::LNot,

                        '>' => Operator::GT,
                        '<' => Operator::LT,

                        _ => Operator::BXor,
                    },
                ),
            },
            String::new(),
            self.pos - 1,
            self.pos,
        )
    }

    /// A two-character operator token: the first character was just
    /// consumed, and this consumes the second.
    pub fn double_op(&mut self, tok_type: Operator) -> (t: Token)
        requires
            old(self).wf(),
            1 <= old(self).pos <= old(self).file_contents@.len(),
        ensures
            final(self).file_contents == old(self).file_contents,
            final(self).pos == old(self).pos + 1,
            t@ == two_char_tok(tok_type, old(self).pos - 1),
    {
        let tok = Token::new(
            TokenType::Operator(tok_type),
            String::new(),
            self.pos - 1,
            self.pos + 1,
        );
        self.bump_char();
        tok
    }

    /// The error for a character no rule recognizes, spanning that character.
    pub fn e(&self, current: char) -> (r: Result<(), Error>)
        requires
            1 <= self.pos,
        ensures
            r matches Err(err) && err@ == lex_err(
                unrecognized_msg(current),
                self.pos - 1,
                self.pos as int,
            ),
    {
        let mut message = "unrecognized character ".to_owned();
        crate::strutil::push_char(&mut message, current);
        Err(Error::new(
            message,
            ErrorType::LexError,
            Pos::new(self.pos - 1, self.pos),
        ))
    }

    /// The whole pass: every token of the input in order, closed by one
    /// `EOF` token whose empty span sits at the input's end, or the first
    /// error. The result is exactly what [`spec_tokenize`] says.
    pub fn tokenize(&mut self) -> (r: Result<Vec<Token>, Error>)
        requires
            old(self).wf(),
            old(self).pos == 0,
        ensures
            match r {
                Ok(toks) => spec_tokenize(old(self).file_contents@) == Ok::<_, ErrorModel>(
                    views_of(toks@),
                ),
                Err(e) => spec_tokenize(old(self).file_contents@) == Err::<Seq<TokenModel>, _>(
                    e@,
                ),
            },
    {
        let ghost s = self.file_contents@;
        let n = self.file_contents.unicode_len();
        let mut tokens: Vec<Token> = Vec::new();
        let mut current = self.bump_char();
        proof {
            assert(views_of(tokens@) =~= Seq::<TokenModel>::empty());
            match lex_from(s, 0) {
                Ok(ts) => {
                    assert(Seq::<TokenModel>::empty() + ts =~= ts);
                },
                Err(_) => {},
            }
        }
        while self.pos <= n
            invariant
                self.wf(),
                self.file_contents == old(self).file_contents,
                s == self.file_contents@,
                n == s.len(),
                1 <= self.pos <= s.len() + 1,
                current == char_at(s, self.pos - 1),
                lex_from(s, 0) == prepend_all(views_of(tokens@), lex_from(s, self.pos - 1)),
            decreases s.len() + 1 - self.pos,
        {
            let ghost q = self.pos - 1int;
            let ghost done = views_of(tokens@);
            if '0' <= current && current <= '9' {
                proof {
                    lemma_spec_number_bounds(s, q);
                }
                match self.number() {
                    Ok(t) => {
                        proof {
                            lemma_prepend_all_shift(done, t@, lex_from(s, self.pos as int));
                            lemma_views_of_push(tokens@, t);
                        }
                        tokens.push(t);
                    },
                    Err(e) => {
                        return Err(e);
                    },
                }
            } else if is_whitespace(current) {
                // Character is whitespace
                // Just do nothing here
            } else if is_id_start(current) {
                proof {
                    lemma_ident_run_end(s, q + 1);
                }
                let t = self.identifier();
                proof {
                    lemma_prepend_all_shift(done, t@, lex_from(s, self.pos as int));
                    lemma_views_of_push(tokens@, t);
                }
                tokens.push(t);
            } else if current == '+' || current == '-' || current == '~' || current == '^'
                || current == '%' || current == '(' || current == ')' {
                let t = self.new_literal(current);
                proof {
                    lemma_prepend_all_shift(done, t@, lex_from(s, self.pos as int));
                    lemma_views_of_push(tokens@, t);
                }
                tokens.push(t);
            } else if current == '!' || current == '|' || current == '&' || current == '*'
                || current == '/' || current == '>' || current == '<' {
                let next = self.peek_char();
                let pair = if current == '!' && next == '=' {
                    Some(Operator::NEql)
                } else if current == '|' && next == '|' {
                    Some(Operator::LOr)
                } else if current == '&' && next == '&' {
                    Some(Operator::LAnd)
                } else if current == '*' && next == '*' {
                    Some(Operator::Pow)
                } else if current == '/' && next == '/' {
                    Some(Operator::IntDiv)
                } else if current == '>' && next == '=' {
                    Some(Operator::GE)
                } else if current == '>' && next == '>' {
                    Some(Operator::BitShiftR)
                } else if current == '<' && next == '=' {
                    Some(Operator::LE)
                } else if current == '<' && next == '<' {
                    Some(Operator::BitShiftL)
                } else {
                    None
                };
                let t = match pair {
                    Some(op) => self.double_op(op),
                    None => self.new_literal(current),
                };
                proof {
                    lemma_prepend_all_shift(done, t@, lex_from(s, self.pos as int));
                    lemma_views_of_push(tokens@, t);
                }
                tokens.push(t);
            } else if current == '=' {
                match self.peek_char() {
                    '=' => {
                        let t = self.double_op(Operator::Eql);
                        proof {
                            lemma_prepend_all_shift(done, t@, lex_from(s, self.pos as int));
                            lemma_views_of_push(tokens@, t);
                        }
                        tokens.push(t);
                    },
                    _ => {
                        match self.e(current) {
                            Err(err) => {
                                return Err(err);
                            },
                            Ok(()) => {},
                        }
                    },
                }
            } else {
                match self.e(current) {
                    Err(err) => {
                        return Err(err);
                    },
                    Ok(()) => {},
                }
            }
            current = self.bump_char();
        }

        let ghost done = views_of(tokens@);
        let eof_tok = Token::new(TokenType::EOF, String::new(), n, n);
        proof {
            lemma_views_of_push(tokens@, eof_tok);
            assert(done + seq![eof_tok@] =~= done.push(eof_tok@));
        }
        tokens.push(eof_tok);

        Ok(tokens)
    }
}

} // verus!

use vstd::prelude::*;
use crate::span::Span;
use crate::tokens::{Token, TokenInfo, TokenType, keyword_token, spec_token_type};
use vstd::std_specs::iter::IteratorSpec;

verus! {

/// Whether `char::is_alphabetic` holds of `c` (Unicode's Alphabetic property).
pub uninterp spec fn alphabetic(c: char) -> bool;

/// Whether `char::is_alphanumeric` holds of `c` (Alphabetic or Numeric).
pub uninterp spec fn alphanumeric(c: char) -> bool;

/// An ASCII letter.
pub open spec fn ascii_letter(c: char) -> bool {
    ('a' <= c && c <= 'z') || ('A' <= c && c <= 'Z')
}

/// An ASCII decimal digit.
pub open spec fn ascii_digit(c: char) -> bool {
    '0' <= c && c <= '9'
}

/// `char::is_alphabetic`: whether the character has Unicode's Alphabetic
/// property. Its result is named; what is stated is the documented ASCII
/// part: among ASCII characters exactly the letters are alphabetic.
#[verifier::external_body]
fn char_is_alphabetic(c: char) -> (r: bool)
    ensures
        r == alphabetic(c),
        (c as u32) < 128 ==> (r <==> ascii_letter(c)),
{
    c.is_alphabetic()
}

/// `char::is_alphanumeric`: whether the character is Alphabetic or Numeric
/// in Unicode. Its result is named; the facts stated are the documented ones
/// that every alphabetic character is alphanumeric, and that among ASCII
/// characters exactly the letters and the digits are.
#[verifier::external_body]
fn char_is_alphanumeric(c: char) -> (r: bool)
    ensures
        r == alphanumeric(c),
        alphabetic(c) ==> r,
        (c as u32) < 128 ==> (r <==> (ascii_letter(c) || ascii_digit(c))),
{
    c.is_alphanumeric()
}

/// `String::push`: appends one character.
#[verifier::external_body]
pub(crate) fn push_char(s: &mut String, c: char)
    ensures
        final(s)@ == old(s)@.push(c),
{
    s.push(c)
}

/// Where the lexer stands: position in the input, line and column (both
/// from 1), and whether the last token was a newline.
pub struct LexState {
    pub pos: int,
    pub line: int,
    pub column: int,
    pub after_newline: bool,
}

/// What a token is, by its kind and the characters it was read from.
pub enum TokSpec {
    /// A token without payload.
    Simple(Token),
    /// An integer literal with its value.
    Int(i32),
    /// A float literal with its digits.
    Float(Seq<char>),
    /// A string literal with its characters after escapes.
    Str(Seq<char>),
    /// A word: a keyword, or else an identifier.
    Word(Seq<char>),
    /// A character that starts no token.
    Illegal(char),
}

/// `t` is the token that `ts` describes.
pub open spec fn token_matches(t: Token, ts: TokSpec) -> bool {
    match ts {
        TokSpec::Simple(k) => t == k,
        TokSpec::Int(n) => t == Token::Integer(n),
        TokSpec::Float(s) => t matches Token::Float(f) && f@ == s,
        TokSpec::Str(s) => t matches Token::String(x) && x@ == s,
        TokSpec::Word(s) => match keyword_token(s) {
            Some(k) => t == k,
            None => t matches Token::Identifier(x) && x@ == s,
        },
        TokSpec::Illegal(c) => t == Token::Illegal(c),
    }
}

/// The state after reading one character.
pub open spec fn adv1(input: Seq<char>, st: LexState) -> LexState {
    if input[st.pos] == '\n' {
        LexState { pos: st.pos + 1, line: st.line + 1, column: 1, after_newline: st.after_newline }
    } else {
        LexState { pos: st.pos + 1, line: st.line, column: st.column + 1, after_newline: st.after_newline }
    }
}

/// The state after reading `k` characters.
pub open spec fn step_over(input: Seq<char>, st: LexState, k: nat) -> LexState
    decreases k,
{
    if k == 0 {
        st
    } else {
        step_over(input, adv1(input, st), (k - 1) as nat)
    }
}

/// Blanks between tokens: space, tab and carriage return.
pub open spec fn is_space(c: char) -> bool {
    c == ' ' || c == '\t' || c == '\r'
}

/// An ASCII decimal digit.
pub open spec fn is_digit(c: char) -> bool {
    '0' <= c <= '9'
}

/// A character that continues a word.
pub open spec fn word_char(c: char) -> bool {
    alphanumeric(c) || c == '_'
}

/// The end of the run of blanks from `p`.
pub open spec fn space_end(input: Seq<char>, p: int) -> int
    decreases input.len() - p,
{
    if 0 <= p < input.len() && is_space(input[p]) {
        space_end(input, p + 1)
    } else {
        p
    }
}

/// The first newline at or after `p`, or the end of the input.
pub open spec fn line_end(input: Seq<char>, p: int) -> int
    decreases input.len() - p,
{
    if 0 <= p < input.len() && input[p] != '\n' {
        line_end(input, p + 1)
    } else {
        p
    }
}

/// The end of the run of digits from `p`.
pub open spec fn digit_end(input: Seq<char>, p: int) -> int
    decreases input.len() - p,
{
    if 0 <= p < input.len() && is_digit(input[p]) {
        digit_end(input, p + 1)
    } else {
        p
    }
}

/// The end of the run of word characters from `p`.
pub open spec fn word_end(input: Seq<char>, p: int) -> int
    decreases input.len() - p,
{
    if 0 <= p < input.len() && word_char(input[p]) {
        word_end(input, p + 1)
    } else {
        p
    }
}

/// The value of a string of decimal digits.
pub open spec fn digits_value(s: Seq<char>) -> nat
    decreases s.len(),
{
    if s.len() == 0 {
        0
    } else {
        digits_value(s.drop_last()) * 10 + (s.last() as nat - '0' as nat) as nat
    }
}

/// An integer literal's value: its digits' value, or 0 when that does not
/// fit in 32 bits.
pub open spec fn int_literal_value(s: Seq<char>) -> i32 {
    if digits_value(s) <= i32::MAX {
        digits_value(s) as i32
    } else {
        0
    }
}

/// The end of the number from `p`, and whether it is a float: digits, then
/// optionally a dot followed by at least one digit and more digits.
pub open spec fn number_end(input: Seq<char>, p: int) -> (int, bool) {
    let e = digit_end(input, p);
    if e + 1 < input.len() && input[e] == '.' && is_digit(input[e + 1]) {
        (digit_end(input, e + 1), true)
    } else {
        (e, false)
    }
}

/// What an escape `\c` inside a string stands for.
pub open spec fn escape(c: char) -> Seq<char> {
    if c == 'n' {
        seq!['\n']
    } else if c == 't' {
        seq!['\t']
    } else if c == 'r' {
        seq!['\r']
    } else if c == '"' || c == '\'' || c == '\\' {
        seq![c]
    } else {
        seq!['\\', c]
    }
}

/// A string literal's body from `p` (just past the opening quote): its
/// characters after escapes if a quote (either kind) closes it, and where
/// reading stopped.
pub open spec fn string_lit(input: Seq<char>, p: int) -> (Option<Seq<char>>, int)
    decreases input.len() - p,
{
    if p < 0 || p >= input.len() {
        (None, p)
    } else if input[p] == '"' || input[p] == '\'' {
        (Some(Seq::empty()), p + 1)
    } else if input[p] == '\\' {
        if p + 1 >= input.len() {
            (None, p + 1)
        } else {
            let (rest, e) = string_lit(input, p + 2);
            match rest {
                Some(r) => (Some(escape(input[p + 1]) + r), e),
                None => (None, e),
            }
        }
    } else {
        let (rest, e) = string_lit(input, p + 1);
        match rest {
            Some(r) => (Some(seq![input[p]] + r), e),
            None => (None, e),
        }
    }
}

/// The token of one character.
pub open spec fn single_token(c: char) -> Option<Token> {
    if c == '(' {
        Some(Token::LeftParenthesis)
    } else if c == ')' {
        Some(Token::RightParenthesis)
    } else if c == '{' {
        Some(Token::LeftBrace)
    } else if c == '}' {
        Some(Token::RightBrace)
    } else if c == '[' {
        Some(Token::LeftBracket)
    } else if c == ']' {
        Some(Token::RightBracket)
    } else if c == ',' {
        Some(Token::Comma)
    } else if c == ';' {
        Some(Token::Semicolon)
    } else if c == '+' {
        Some(Token::Plus)
    } else if c == '-' {
        Some(Token::Minus)
    } else if c == '*' {
        Some(Token::Asterisk)
    } else if c == '/' {
        Some(Token::Slash)
    } else if c == '@' {
        Some(Token::At)
    } else if c == '#' {
        Some(Token::Hashtag)
    } else if c == '^' {
        Some(Token::Caret)
    } else {
        None
    }
}

/// For a character that starts a token of one or two characters: the token
/// alone, the second character, and the token of both.
pub open spec fn pair_token(c: char) -> Option<(Token, char, Token)> {
    if c == ':' {
        Some((Token::Colon, ':', Token::BoxColon))
    } else if c == '.' {
        Some((Token::Dot, '.', Token::RangeDot))
    } else if c == '=' {
        Some((Token::Assign, '=', Token::Equal))
    } else if c == '!' {
        Some((Token::Bang, '=', Token::NotEqual))
    } else if c == '<' {
        Some((Token::LessThan, '=', Token::LessThanEqual))
    } else if c == '>' {
        Some((Token::GreaterThan, '=', Token::GreaterThanEqual))
    } else {
        None
    }
}

/// The token that starts at `p` (not a blank, not past the end) and where it ends.
pub open spec fn scan(input: Seq<char>, p: int) -> (TokSpec, int) {
    let c = input[p];
    if c == '\n' {
        (TokSpec::Simple(Token::Newline), p + 1)
    } else if single_token(c) is Some {
        (TokSpec::Simple(single_token(c)->Some_0), p + 1)
    } else if pair_token(c) is Some {
        let (one, second, two) = pair_token(c)->Some_0;
        if p + 1 < input.len() && input[p + 1] == second {
            (TokSpec::Simple(two), p + 2)
        } else {
            (TokSpec::Simple(one), p + 1)
        }
    } else if c == '"' || c == '\'' {
        let (body, e) = string_lit(input, p + 1);
        match body {
            Some(b) => (TokSpec::Str(b), e),
            None => (TokSpec::Illegal('"'), e),
        }
    } else if is_digit(c) {
        let (e, float) = number_end(input, p);
        if float {
            (TokSpec::Float(input.subrange(p, e)), e)
        } else {
            (TokSpec::Int(int_literal_value(input.subrange(p, e))), e)
        }
    } else if alphabetic(c) || c == '_' {
        let e = word_end(input, p);
        (TokSpec::Word(input.subrange(p, e)), e)
    } else {
        (TokSpec::Illegal(c), p + 1)
    }
}

/// The next token from `st`, its span, and the state after it: blanks are
/// skipped, a `//` comment is skipped to the end of its line, and a newline
/// right after a newline token is skipped.
pub open spec fn spec_next(input: Seq<char>, st: LexState) -> (TokSpec, Span, LexState)
    decreases input.len() - st.pos,
{
    let p = space_end(input, st.pos);
    let s1 = step_over(input, st, (p - st.pos) as nat);
    if 0 <= st.pos <= p && p + 1 < input.len() && input[p] == '/' && input[p + 1] == '/' {
        let e = line_end(input, p + 2);
        if p + 2 <= e <= input.len() {
            proof {
                lemma_step_over(input, st, (p - st.pos) as nat);
                lemma_step_over(input, s1, (e - p) as nat);
            }
            spec_next(input, step_over(input, s1, (e - p) as nat))
        } else {
            (TokSpec::Simple(Token::EndOfFile), Span::zero(), st)
        }
    } else if !(0 <= st.pos <= p) || p >= input.len() {
        let span = Span { line: s1.line as u32, start_column: s1.column as u32, end_column: s1.column as u32 };
        (TokSpec::Simple(Token::EndOfFile), span, LexState { after_newline: false, ..s1 })
    } else if input[p] == '\n' && s1.after_newline {
        proof {
            lemma_step_over(input, st, (p - st.pos) as nat);
            lemma_step_over(input, s1, 1);
        }
        spec_next(input, step_over(input, s1, 1))
    } else {
        let (t, e) = scan(input, p);
        let s2 = step_over(input, s1, (e - p) as nat);
        let span = Span { line: s1.line as u32, start_column: s1.column as u32, end_column: s2.column as u32 };
        (t, span, LexState { after_newline: t == TokSpec::Simple(Token::Newline), ..s2 })
    }
}

/// Blanks run from where they start to at most the end of the input.
pub proof fn lemma_space_end(input: Seq<char>, p: int)
    ensures
        p <= space_end(input, p),
        0 <= p <= input.len() ==> space_end(input, p) <= input.len(),
    decreases input.len() - p,
{
    if 0 <= p < input.len() && is_space(input[p]) {
        lemma_space_end(input, p + 1);
    }
}

/// A comment runs from where it starts to at most the end of the input.
pub proof fn lemma_line_end(input: Seq<char>, p: int)
    ensures
        p <= line_end(input, p),
        0 <= p <= input.len() ==> line_end(input, p) <= input.len(),
    decreases input.len() - p,
{
    if 0 <= p < input.len() && input[p] != '\n' {
        lemma_line_end(input, p + 1);
    }
}

/// The position moves by exactly the number of characters read.
pub proof fn lemma_step_over(input: Seq<char>, st: LexState, k: nat)
    ensures
        step_over(input, st, k).pos == st.pos + k,
        step_over(input, st, k).after_newline == st.after_newline,
        st.line >= 1 && st.column >= 1 ==> step_over(input, st, k).line >= 1 && step_over(input, st, k).column >= 1,
        st.column >= 1 ==> step_over(input, st, k).line + step_over(input, st, k).column <= st.line + st.column + k,
    decreases k,
{
    if k > 0 {
        lemma_step_over(input, adv1(input, st), (k - 1) as nat);
    }
}

/// Reading `k` characters and then one more is reading `k + 1`.
pub proof fn lemma_step_over_succ(input: Seq<char>, st: LexState, k: nat)
    ensures
        step_over(input, st, k + 1) == adv1(input, step_over(input, st, k)),
    decreases k,
{
    reveal_with_fuel(step_over, 2);
    if k > 0 {
        lemma_step_over_succ(input, adv1(input, st), (k - 1) as nat);
    }
}

/// Reading `a` characters and then `b` is reading `a + b`.
pub proof fn lemma_step_over_add(input: Seq<char>, st: LexState, a: nat, b: nat)
    ensures
        step_over(input, step_over(input, st, a), b) == step_over(input, st, a + b),
    decreases a,
{
    if a > 0 {
        lemma_step_over_add(input, adv1(input, st), (a - 1) as nat, b);
    }
}


/// A newline token is read only where the last token was not a newline; it
/// consumes at least one character, and the state after it records it.
proof fn lemma_next_newline(input: Seq<char>, st: LexState)
    requires
        0 <= st.pos,
    ensures
        spec_next(input, st).0 == TokSpec::Simple(Token::Newline) ==> {
            &&& !st.after_newline
            &&& st.pos < spec_next(input, st).2.pos <= input.len()
            &&& spec_next(input, st).2.after_newline
        },
        spec_next(input, st).0 != TokSpec::Simple(Token::EndOfFile) && st.pos <= input.len()
            ==> spec_next(input, st).2.after_newline == (spec_next(input, st).0 == TokSpec::Simple(Token::Newline)),
    decreases input.len() - st.pos,
{
    let p = space_end(input, st.pos);
    lemma_space_end(input, st.pos);
    lemma_step_over(input, st, (p - st.pos) as nat);
    let s1 = step_over(input, st, (p - st.pos) as nat);
    if 0 <= st.pos <= p && p + 1 < input.len() && input[p] == '/' && input[p + 1] == '/' {
        let e = line_end(input, p + 2);
        lemma_line_end(input, p + 2);
        lemma_step_over(input, s1, (e - p) as nat);
        if p + 2 <= e <= input.len() {
            lemma_next_newline(input, step_over(input, s1, (e - p) as nat));
        }
    } else if !(0 <= st.pos <= p) || p >= input.len() {
    } else if input[p] == '\n' && s1.after_newline {
        lemma_step_over(input, s1, 1);
        lemma_next_newline(input, step_over(input, s1, 1));
    } else {
        let (t, e) = scan(input, p);
        if t == TokSpec::Simple(Token::Newline) {
            lemma_step_over(input, s1, (e - p) as nat);
        }
    }
}

/// The tokens of a text never repeat a newline, and none starts with a
/// newline where the text is read from its start or right after a newline:
/// the lexer reads a run of line breaks as one newline token, and
/// tokenizing leaves out the newlines before the first other token.
pub proof fn law_no_repeated_newline(input: Seq<char>, st: LexState, first: bool)
    requires
        0 <= st.pos <= input.len(),
    ensures
        (first || st.after_newline) ==> spec_tokens(input, st, first)[0].0 != TokSpec::Simple(Token::Newline),
        forall|i: int| 0 <= i < spec_tokens(input, st, first).len() - 1
            && #[trigger] spec_tokens(input, st, first)[i].0 == TokSpec::Simple(Token::Newline)
            ==> spec_tokens(input, st, first)[i + 1].0 != TokSpec::Simple(Token::Newline),
    decreases input.len() - st.pos,
{
    let (t, sp, st2) = spec_next(input, st);
    lemma_next_newline(input, st);
    let ss = spec_tokens(input, st, first);
    if t == TokSpec::Simple(Token::EndOfFile) {
    } else if st.pos < st2.pos <= input.len() {
        if first && t == TokSpec::Simple(Token::Newline) {
            law_no_repeated_newline(input, st2, true);
        } else {
            law_no_repeated_newline(input, st2, false);
            let tail = spec_tokens(input, st2, false);
            assert(ss == seq![(t, sp)] + tail);
            assert forall|i: int| 0 <= i < ss.len() - 1 && #[trigger] ss[i].0 == TokSpec::Simple(Token::Newline)
                implies ss[i + 1].0 != TokSpec::Simple(Token::Newline) by {
                if i > 0 {
                    assert(ss[i] == tail[i - 1]);
                    assert(ss[i + 1] == tail[i]);
                } else {
                    assert(ss[1] == tail[0]);
                }
            }
        }
    } else {
    }
}


/// The one-character token of `c`, if any.
fn single_token_exec(c: char) -> (r: Option<Token>)
    ensures
        r == single_token(c),
{
    match c {
        '(' => Some(Token::LeftParenthesis),
        ')' => Some(Token::RightParenthesis),
        '{' => Some(Token::LeftBrace),
        '}' => Some(Token::RightBrace),
        '[' => Some(Token::LeftBracket),
        ']' => Some(Token::RightBracket),
        ',' => Some(Token::Comma),
        ';' => Some(Token::Semicolon),
        '+' => Some(Token::Plus),
        '-' => Some(Token::Minus),
        '*' => Some(Token::Asterisk),
        '/' => Some(Token::Slash),
        '@' => Some(Token::At),
        '#' => Some(Token::Hashtag),
        '^' => Some(Token::Caret),
        _ => None,
    }
}

/// The one- or two-character token family that `c` starts, if any.
fn pair_token_exec(c: char) -> (r: Option<(Token, char, Token)>)
    ensures
        r == pair_token(c),
{
    match c {
        ':' => Some((Token::Colon, ':', Token::BoxColon)),
        '.' => Some((Token::Dot, '.', Token::RangeDot)),
        '=' => Some((Token::Assign, '=', Token::Equal)),
        '!' => Some((Token::Bang, '=', Token::NotEqual)),
        '<' => Some((Token::LessThan, '=', Token::LessThanEqual)),
        '>' => Some((Token::GreaterThan, '=', Token::GreaterThanEqual)),
        _ => None,
    }
}

/// The tokens read from `st` up to and including `EndOfFile`; while `first`
/// holds (no token kept yet) newline tokens are left out.
pub open spec fn spec_tokens(input: Seq<char>, st: LexState, first: bool) -> Seq<(TokSpec, Span)>
    decreases input.len() - st.pos,
{
    let (t, sp, st2) = spec_next(input, st);
    if t == TokSpec::Simple(Token::EndOfFile) {
        seq![(t, sp)]
    } else if st.pos < st2.pos <= input.len() {
        if first && t == TokSpec::Simple(Token::Newline) {
            spec_tokens(input, st2, true)
        } else {
            seq![(t, sp)] + spec_tokens(input, st2, false)
        }
    } else {
        seq![(t, sp)]
    }
}

/// The tokens and spans read are the ones described.
pub open spec fn tokens_match(ts: Seq<TokenInfo>, ss: Seq<(TokSpec, Span)>) -> bool {
    &&& ts.len() == ss.len()
    &&& forall|i: int| 0 <= i < ts.len() ==> token_matches(#[trigger] ts[i].token, ss[i].0) && ts[i].span == ss[i].1
}

/// Turns source text into tokens, tracking line and column.
pub struct Lexer {
    input: Vec<char>,
    position: u32,
    line: u32,
    column: u32,
    last_token: Option<crate::tokens::TokenType>,
}

impl Lexer {
    /// The text being read.
    pub closed spec fn text(&self) -> Seq<char> {
        self.input@
    }

    /// Where the lexer stands.
    pub closed spec fn state(&self) -> LexState {
        LexState {
            pos: self.position as int,
            line: self.line as int,
            column: self.column as int,
            after_newline: self.last_token == Some(crate::tokens::TokenType::Newline),
        }
    }

    /// The lexer's invariant.
    pub closed spec fn wf(&self) -> bool {
        &&& self.input@.len() + 8 < u32::MAX
        &&& self.position <= self.input@.len()
        &&& self.line >= 1
        &&& self.column >= 1
        &&& self.line + self.column <= self.position + 2
    }

    /// A lexer at the start of `input`.
    pub fn new(input: &str) -> (l: Lexer)
        requires
            input@.len() + 8 < u32::MAX,
        ensures
            l.wf(),
            l.text() == input@,
            l.state() == (LexState { pos: 0, line: 1, column: 1, after_newline: false }),
    {
        broadcast use vstd::string::axiom_spec_iter, vstd::string::next_postcondition;
        let mut chars: Vec<char> = Vec::new();
        let mut it = input.chars();
        loop
            invariant
                chars@ + it.remaining() == input@,
                it.decrease() is Some,
            ensures
                chars@ == input@,
            decreases it.decrease()->0,
        {
            let ghost before = it.remaining();
            match it.next() {
                Some(c) => {
                    proof {
                        assert(chars@.push(c) + it.remaining() =~= chars@ + before);
                    }
                    chars.push(c);
                },
                None => {
                    proof {
                        assert(chars@ =~= input@);
                    }
                    break;
                },
            }
        }
        Lexer { input: chars, position: 0, line: 1, column: 1, last_token: None }
    }

    /// The character at the current position.
    fn current(&self) -> (c: Option<char>)
        requires
            self.wf(),
        ensures
            c == (if self.position < self.input@.len() { Some(self.input@[self.position as int]) } else { None }),
    {
        if (self.position as usize) < self.input.len() {
            Some(self.input[self.position as usize])
        } else {
            None
        }
    }

    /// The character `offset` past the current position.
    fn peek(&self, offset: usize) -> (c: Option<char>)
        requires
            self.wf(),
            offset <= 8,
        ensures
            c == (if self.position + offset < self.input@.len() {
                Some(self.input@[self.position + offset])
            } else {
                None
            }),
    {
        let at = self.position as usize + offset;
        if at < self.input.len() {
            Some(self.input[at])
        } else {
            None
        }
    }

    /// Reads one character, moving to the next line after a newline.
    fn advance(&mut self) -> (c: Option<char>)
        requires
            old(self).wf(),
        ensures
            final(self).wf(),
            final(self).text() == old(self).text(),
            final(self).last_token == old(self).last_token,
            old(self).position < old(self).input@.len() ==> c == Some(old(self).input@[old(self).position as int])
                && final(self).state() == adv1(old(self).text(), old(self).state()),
            old(self).position >= old(self).input@.len() ==> c is None && final(self).state() == old(self).state(),
    {
        let ch = match self.current() {
            Some(ch) => ch,
            None => return None,
        };
        self.position = self.position + 1;
        if ch == '\n' {
            self.line = self.line + 1;
            self.column = 1;
        } else {
            self.column = self.column + 1;
        }
        Some(ch)
    }

    /// Skips blanks.
    fn skip_whitespace(&mut self)
        requires
            old(self).wf(),
        ensures
            final(self).wf(),
            final(self).text() == old(self).text(),
            final(self).last_token == old(self).last_token,
            final(self).state() == step_over(old(self).text(), old(self).state(),
                (space_end(old(self).text(), old(self).position as int) - old(self).position) as nat),
    {
        let ghost st0 = self.state();
        let ghost p0 = self.position as int;
        loop
            invariant
                self.wf(),
                self.text() == old(self).text(),
                self.last_token == old(self).last_token,
                st0 == old(self).state(),
                p0 == old(self).position,
                p0 <= self.position,
                space_end(self.text(), p0) == space_end(self.text(), self.position as int),
                self.state() == step_over(self.text(), st0, (self.position - p0) as nat),
            ensures
                self.position >= self.input@.len() || !is_space(self.input@[self.position as int]),
            decreases self.input@.len() - self.position,
        {
            match self.current() {
                Some(c) => {
                    if c == ' ' || c == '\t' || c == '\r' {
                        proof {
                            lemma_step_over_succ(self.text(), st0, (self.position - p0) as nat);
                        }
                        self.advance();
                    } else {
                        break;
                    }
                },
                None => break,
            }
        }
    }

    /// Skips a `//` comment up to (not including) the end of its line.
    fn skip_comment(&mut self)
        requires
            old(self).wf(),
            old(self).position + 1 < old(self).input@.len(),
        ensures
            final(self).wf(),
            final(self).text() == old(self).text(),
            final(self).last_token == old(self).last_token,
            final(self).state() == step_over(old(self).text(), old(self).state(),
                (line_end(old(self).text(), old(self).position + 2) - old(self).position) as nat),
    {
        let ghost st0 = self.state();
        let ghost p0 = self.position as int;
        proof {
            lemma_step_over_succ(self.text(), st0, 0);
            lemma_step_over_succ(self.text(), st0, 1);
        }
        self.advance();
        self.advance();
        loop
            invariant
                self.wf(),
                self.text() == old(self).text(),
                self.last_token == old(self).last_token,
                st0 == old(self).state(),
                p0 == old(self).position,
                p0 + 2 <= self.position,
                line_end(self.text(), p0 + 2) == line_end(self.text(), self.position as int),
                self.state() == step_over(self.text(), st0, (self.position - p0) as nat),
            ensures
                self.position >= self.input@.len() || self.input@[self.position as int] == '\n',
            decreases self.input@.len() - self.position,
        {
            match self.current() {
                Some(c) => {
                    if c == '\n' {
                        break;
                    }
                    proof {
                        lemma_step_over_succ(self.text(), st0, (self.position - p0) as nat);
                    }
                    self.advance();
                },
                None => break,
            }
        }
    }


    /// Reads a number: digits, then optionally a dot, a digit and more
    /// digits. An integer too large for 32 bits reads as 0.
    fn read_number(&mut self) -> (t: Token)
        requires
            old(self).wf(),
            old(self).position < old(self).input@.len(),
            is_digit(old(self).input@[old(self).position as int]),
        ensures
            final(self).wf(),
            final(self).text() == old(self).text(),
            final(self).last_token == old(self).last_token,
            ({
                let p = old(self).position as int;
                let (e, float) = number_end(old(self).text(), p);
                &&& p < e
                &&& final(self).state() == step_over(old(self).text(), old(self).state(), (e - p) as nat)
                &&& token_matches(t, if float {
                    TokSpec::Float(old(self).text().subrange(p, e))
                } else {
                    TokSpec::Int(int_literal_value(old(self).text().subrange(p, e)))
                })
            }),
    {
        let ghost st0 = self.state();
        let ghost p0 = self.position as int;
        let ghost text = self.text();
        let mut num = String::new();
        let mut value: u64 = 0;
        let mut overflow = false;
        loop
            invariant
                self.wf(),
                self.text() == text,
                text == old(self).text(),
                self.last_token == old(self).last_token,
                st0 == old(self).state(),
                p0 == old(self).position,
                p0 <= self.position,
                digit_end(text, p0) == digit_end(text, self.position as int),
                self.state() == step_over(text, st0, (self.position - p0) as nat),
                num@ == text.subrange(p0, self.position as int),
                !overflow ==> value == digits_value(num@) && value <= i32::MAX,
                overflow ==> digits_value(num@) > i32::MAX,
            ensures
                self.position >= self.input@.len() || !is_digit(self.input@[self.position as int]),
            decreases self.input@.len() - self.position,
        {
            match self.current() {
                Some(c) => {
                    if '0' <= c && c <= '9' {
                        proof {
                            lemma_step_over_succ(text, st0, (self.position - p0) as nat);
                            assert(num@.push(c).drop_last() =~= num@);
                            assert(text.subrange(p0, self.position + 1) =~= num@.push(c));
                        }
                        if !overflow {
                            let next = value * 10 + ((c as u32) - ('0' as u32)) as u64;
                            if next > 2147483647u64 {
                                overflow = true;
                            } else {
                                value = next;
                            }
                        }
                        push_char(&mut num, c);
                        self.advance();
                    } else {
                        break;
                    }
                },
                None => break,
            }
        }
        let ghost e1 = self.position as int;
        let c1 = self.current();
        let c2 = self.peek(1);
        let is_float = match (c1, c2) {
            (Some('.'), Some(d)) => '0' <= d && d <= '9',
            _ => false,
        };
        if is_float {
            proof {
                lemma_step_over_succ(text, st0, (self.position - p0) as nat);
                assert(text.subrange(p0, self.position + 1) =~= num@.push('.'));
            }
            push_char(&mut num, '.');
            self.advance();
            loop
                invariant
                    self.wf(),
                    self.text() == text,
                    text == old(self).text(),
                    self.last_token == old(self).last_token,
                    st0 == old(self).state(),
                    p0 == old(self).position,
                    e1 + 1 <= self.position,
                    p0 < e1 + 1,
                    digit_end(text, e1 + 1) == digit_end(text, self.position as int),
                    self.state() == step_over(text, st0, (self.position - p0) as nat),
                    num@ == text.subrange(p0, self.position as int),
                ensures
                    self.position >= self.input@.len() || !is_digit(self.input@[self.position as int]),
                decreases self.input@.len() - self.position,
            {
                match self.current() {
                    Some(c) => {
                        if '0' <= c && c <= '9' {
                            proof {
                                lemma_step_over_succ(text, st0, (self.position - p0) as nat);
                                assert(text.subrange(p0, self.position + 1) =~= num@.push(c));
                            }
                            push_char(&mut num, c);
                            self.advance();
                        } else {
                            break;
                        }
                    },
                    None => break,
                }
            }
            Token::Float(num)
        } else {
            Token::Integer(if overflow { 0 } else { value as i32 })
        }
    }

    /// Reads a word: a keyword, or else an identifier.
    fn read_identifier(&mut self) -> (t: Token)
        requires
            old(self).wf(),
            old(self).position < old(self).input@.len(),
            alphabetic(old(self).input@[old(self).position as int]) || old(self).input@[old(self).position as int] == '_',
        ensures
            final(self).wf(),
            final(self).text() == old(self).text(),
            final(self).last_token == old(self).last_token,
            ({
                let p = old(self).position as int;
                let e = word_end(old(self).text(), p);
                &&& p < e
                &&& final(self).state() == step_over(old(self).text(), old(self).state(), (e - p) as nat)
                &&& token_matches(t, TokSpec::Word(old(self).text().subrange(p, e)))
            }),
    {
        let ghost st0 = self.state();
        let ghost p0 = self.position as int;
        let ghost text = self.text();
        let mut id = String::new();
        let first = char_is_alphanumeric(self.input[self.position as usize]);
        loop
            invariant
                self.wf(),
                self.text() == text,
                text == old(self).text(),
                self.last_token == old(self).last_token,
                st0 == old(self).state(),
                p0 == old(self).position,
                p0 <= self.position,
                word_char(text[p0]),
                word_end(text, p0) == word_end(text, self.position as int),
                self.state() == step_over(text, st0, (self.position - p0) as nat),
                id@ == text.subrange(p0, self.position as int),
            ensures
                self.position >= self.input@.len() || !word_char(self.input@[self.position as int]),
            decreases self.input@.len() - self.position,
        {
            match self.current() {
                Some(c) => {
                    if char_is_alphanumeric(c) || c == '_' {
                        proof {
                            lemma_step_over_succ(text, st0, (self.position - p0) as nat);
                            assert(text.subrange(p0, self.position + 1) =~= id@.push(c));
                        }
                        push_char(&mut id, c);
                        self.advance();
                    } else {
                        break;
                    }
                },
                None => break,
            }
        }
        Token::lookup_identifier(id.as_str())
    }

    /// Reads a string literal from its opening quote. Either quote closes it;
    /// escapes are decoded. An unterminated literal reads as an illegal `"`.
    fn read_string(&mut self) -> (t: Token)
        requires
            old(self).wf(),
            old(self).position < old(self).input@.len(),
            old(self).input@[old(self).position as int] == '"' || old(self).input@[old(self).position as int] == '\'',
        ensures
            final(self).wf(),
            final(self).text() == old(self).text(),
            final(self).last_token == old(self).last_token,
            ({
                let p = old(self).position as int;
                let (body, e) = string_lit(old(self).text(), p + 1);
                &&& p < e
                &&& final(self).state() == step_over(old(self).text(), old(self).state(), (e - p) as nat)
                &&& token_matches(t, match body {
                    Some(b) => TokSpec::Str(b),
                    None => TokSpec::Illegal('"'),
                })
            }),
    {
        let ghost st0 = self.state();
        let ghost p0 = self.position as int;
        let ghost text = self.text();
        proof {
            lemma_step_over_succ(text, st0, 0);
        }
        self.advance();
        let mut s = String::new();
        loop
            invariant
                self.wf(),
                self.text() == text,
                text == old(self).text(),
                self.last_token == old(self).last_token,
                st0 == old(self).state(),
                p0 == old(self).position,
                p0 + 1 <= self.position,
                self.state() == step_over(text, st0, (self.position - p0) as nat),
                string_lit(text, p0 + 1) == (match string_lit(text, self.position as int) {
                    (Some(r), e) => (Some(s@ + r), e),
                    (None, e) => (None, e),
                }),
            ensures
                self.position >= self.input@.len(),
            decreases self.input@.len() - self.position,
        {
            let ghost cur = self.position as int;
            match self.current() {
                Some(ch) => {
                    if ch == '"' || ch == '\'' {
                        proof {
                            lemma_step_over_succ(text, st0, (self.position - p0) as nat);
                            assert(s@ + Seq::<char>::empty() =~= s@);
                        }
                        self.advance();
                        return Token::String(s);
                    }
                    if ch == '\\' {
                        proof {
                            lemma_step_over_succ(text, st0, (self.position - p0) as nat);
                        }
                        self.advance();
                        match self.current() {
                            Some(escaped) => {
                                let ghost before = s@;
                                if escaped == 'n' {
                                    push_char(&mut s, '\n');
                                } else if escaped == 't' {
                                    push_char(&mut s, '\t');
                                } else if escaped == 'r' {
                                    push_char(&mut s, '\r');
                                } else if escaped == '"' || escaped == '\'' || escaped == '\\' {
                                    push_char(&mut s, escaped);
                                } else {
                                    push_char(&mut s, '\\');
                                    push_char(&mut s, escaped);
                                }
                                proof {
                                    assert(s@ =~= before + escape(escaped));
                                    lemma_step_over_succ(text, st0, (self.position - p0) as nat);
                                    let (rest, e) = string_lit(text, cur + 2);
                                    if rest is Some {
                                        assert(before + (escape(escaped) + rest->Some_0) =~= s@ + rest->Some_0);
                                    }
                                }
                                self.advance();
                            },
                            None => {},
                        }
                    } else {
                        let ghost before = s@;
                        push_char(&mut s, ch);
                        proof {
                            lemma_step_over_succ(text, st0, (self.position - p0) as nat);
                            let (rest, e) = string_lit(text, cur + 1);
                            if rest is Some {
                                assert(before + (seq![ch] + rest->Some_0) =~= s@ + rest->Some_0);
                            }
                        }
                        self.advance();
                    }
                },
                None => break,
            }
        }
        Token::Illegal('"')
    }

    /// Reads the next token with its span. Blanks and `//` comments are
    /// skipped, and so is a newline right after a newline token; at the end
    /// of the input the token is `EndOfFile`.
    pub fn next_token(&mut self) -> (info: TokenInfo)
        requires
            old(self).wf(),
        ensures
            final(self).wf(),
            final(self).text() == old(self).text(),
            ({
                let (ts, span, st) = spec_next(old(self).text(), old(self).state());
                &&& token_matches(info.token, ts)
                &&& info.span == span
                &&& final(self).state() == st
                &&& (ts != TokSpec::Simple(Token::EndOfFile) ==> old(self).state().pos < final(self).state().pos)
            }),
        decreases old(self).text().len() - old(self).state().pos,
    {
        let ghost text = self.text();
        let ghost st0 = self.state();
        self.skip_whitespace();
        let ghost p = self.position as int;
        proof {
            lemma_space_end(text, st0.pos);
            lemma_step_over(text, st0, (space_end(text, st0.pos) - st0.pos) as nat);
        }
        if self.current() == Some('/') && self.peek(1) == Some('/') {
            let ghost s1 = self.state();
            self.skip_comment();
            proof {
                lemma_step_over(text, s1, (line_end(text, p + 2) - p) as nat);
                lemma_line_end(text, p + 2);
                assert(self.text().len() - self.state().pos < text.len() - st0.pos);
            }
            return self.next_token();
        }
        let start_line = self.line;
        let start_col = self.column;
        let ghost s1 = self.state();
        let token = match self.current() {
            None => Token::EndOfFile,
            Some(c) => {
                if c == '\n' {
                    if self.last_token == Some(crate::tokens::TokenType::Newline) {
                        proof {
                            lemma_step_over_succ(text, s1, 0);
                            lemma_step_over(text, s1, 1);
                        }
                        self.advance();
                        assert(self.state().pos == p + 1);
                        assert(st0.pos <= p);
                        assert(self.text().len() - self.state().pos < text.len() - st0.pos);
                        return self.next_token();
                    }
                    proof {
                        lemma_step_over_succ(text, s1, 0);
                    }
                    self.advance();
                    Token::Newline
                } else {
                    match single_token_exec(c) {
                        Some(t) => {
                            proof { lemma_step_over_succ(text, s1, 0); }
                            self.advance();
                            t
                        },
                        None => match pair_token_exec(c) {
                            Some((one, second, two)) => {
                                proof {
                                    lemma_step_over_succ(text, s1, 0);
                                    lemma_step_over_succ(text, s1, 1);
                                }
                                self.advance();
                                if self.current() == Some(second) {
                                    self.advance();
                                    two
                                } else {
                                    one
                                }
                            },
                            None => {
                                if c == '"' || c == '\'' {
                                    let t = self.read_string();
                                    proof {
                                        lemma_step_over(text, s1, (string_lit(text, p + 1).1 - p) as nat);
                                    }
                                    t
                                } else if '0' <= c && c <= '9' {
                                    let t = self.read_number();
                                    proof {
                                        lemma_step_over(text, s1, (number_end(text, p).0 - p) as nat);
                                    }
                                    t
                                } else if char_is_alphabetic(c) || c == '_' {
                                    let t = self.read_identifier();
                                    proof {
                                        lemma_step_over(text, s1, (word_end(text, p) - p) as nat);
                                    }
                                    t
                                } else {
                                    proof { lemma_step_over_succ(text, s1, 0); }
                                    self.advance();
                                    Token::Illegal(c)
                                }
                            },
                        },
                    }
                }
            },
        };
        let end_col = self.column;
        self.last_token = Some(token.get_token_type());
        TokenInfo { token, span: Span { line: start_line, start_column: start_col, end_column: end_col } }
    }

    /// Reads every token up to and including `EndOfFile`, leaving out the
    /// newlines before the first other token.
    pub fn tokenize(&mut self) -> (tokens: Vec<TokenInfo>)
        requires
            old(self).wf(),
        ensures
            final(self).wf(),
            final(self).text() == old(self).text(),
            tokens_match(tokens@, spec_tokens(old(self).text(), old(self).state(), true)),
            tokens@.len() > 0,
            spec_token_type(tokens@.last().token) == TokenType::EndOfFile,
            forall|i: int| 0 <= i < tokens@.len() - 1 ==> spec_token_type(#[trigger] tokens@[i].token) != TokenType::EndOfFile,
    {
        let ghost text = self.text();
        let ghost st0 = self.state();
        let ghost mut done: Seq<(TokSpec, Span)> = Seq::empty();
        let mut tokens: Vec<TokenInfo> = Vec::new();
        loop
            invariant_except_break
                tokens_match(tokens@, done),
                tokens@.len() == done.len(),
                spec_tokens(text, st0, true) == done + spec_tokens(text, self.state(), done.len() == 0),
                forall|i: int| 0 <= i < tokens@.len() ==> spec_token_type(#[trigger] tokens@[i].token) != TokenType::EndOfFile,
            invariant
                self.wf(),
                self.text() == text,
                text == old(self).text(),
                st0 == old(self).state(),
            ensures
                tokens_match(tokens@, spec_tokens(text, st0, true)),
                tokens@.len() > 0,
                spec_token_type(tokens@.last().token) == TokenType::EndOfFile,
                forall|i: int| 0 <= i < tokens@.len() - 1 ==> spec_token_type(#[trigger] tokens@[i].token) != TokenType::EndOfFile,
            decreases text.len() - self.state().pos,
        {
            let ghost before = self.state();
            let info = self.next_token();
            let ghost (ts, sp, st2) = spec_next(text, before);
            let tt = info.token.get_token_type();
            if tt == TokenType::EndOfFile {
                proof {
                    assert(ts == TokSpec::Simple(Token::EndOfFile));
                    assert(spec_tokens(text, before, done.len() == 0) == seq![(ts, sp)]);
                    assert(done + seq![(ts, sp)] == done.push((ts, sp)));
                }
                tokens.push(info);
                proof {
                    done = done.push((ts, sp));
                }
                break;
            }
            proof {
                assert(ts != TokSpec::Simple(Token::EndOfFile));
            }
            if tokens.len() == 0 && tt == TokenType::Newline {
                proof {
                    assert(ts == TokSpec::Simple(Token::Newline));
                }
                continue;
            }
            proof {
                assert(!(done.len() == 0 && ts == TokSpec::Simple(Token::Newline)));
                assert(done + (seq![(ts, sp)] + spec_tokens(text, st2, false))
                    =~= done.push((ts, sp)) + spec_tokens(text, st2, false));
            }
            tokens.push(info);
            proof {
                done = done.push((ts, sp));
            }
        }
        tokens
    }
}

} // verus!

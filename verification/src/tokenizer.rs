use vstd::prelude::*;
use vstd::std_specs::iter::IteratorSpec;
use vstd::string::{StrSliceExecFns, StringExecFns};
use vstd::utf8::encode_utf8;
use crate::error::{Error, ErrorView};
use crate::keyword::{is_op, known_op};
use crate::number::{decimal_parse, Number};
use crate::registry::{Registry, RegistryView};
use crate::text::same_text;
use crate::token::{delim_of_char, delim_text, DelimTokenType, Span, Token, TokenView};

verus! {

pub open spec fn whitespace_char(ch: char) -> bool {
    ch == ' ' || ch == '\t' || ch == '\r' || ch == '\n'
}

pub open spec fn delim_char(ch: char) -> bool {
    ch == '(' || ch == ')' || ch == '[' || ch == ']' || ch == '{' || ch == '}'
}

/// The characters that a number may hold after its first digit.
pub open spec fn digit_char(ch: char) -> bool {
    ('0' <= ch && ch <= '9') || ch == '.' || ch == '-' || ch == 'e' || ch == 'E' || ch == '+'
}

/// The characters of a name: letters, digits, the dot and the underscore.
pub open spec fn param_char(ch: char) -> bool {
    ('0' <= ch && ch <= '9') || ('a' <= ch && ch <= 'z') || ('A' <= ch && ch <= 'Z') || ch == '.'
        || ch == '_'
}

/// The characters with which a name begins: a letter or the underscore.
pub open spec fn name_start_char(ch: char) -> bool {
    ('a' <= ch && ch <= 'z') || ('A' <= ch && ch <= 'Z') || ch == '_'
}

/// The characters with which a symbolic operator begins.
pub open spec fn operator_start_char(ch: char) -> bool {
    ch == '+' || ch == '-' || ch == '*' || ch == '/' || ch == '^' || ch == '%' || ch == '&' || ch
        == '!' || ch == '=' || ch == '?' || ch == ':' || ch == '>' || ch == '<' || ch == '|'
}

/// Whether a number that ends in `prev` goes on with `ch`: a sign belongs to
/// the number only directly after the exponent mark.
pub open spec fn number_continues(prev: char, ch: char) -> bool {
    &&& digit_char(ch)
    &&& (ch == '+' || ch == '-') ==> (prev == 'e' || prev == 'E')
}

fn is_whitespace_char(ch: char) -> (r: bool)
    ensures
        r == whitespace_char(ch),
{
    ch == ' ' || ch == '\t' || ch == '\r' || ch == '\n'
}

fn is_delim_char(ch: char) -> (r: bool)
    ensures
        r == delim_char(ch),
{
    ch == '(' || ch == ')' || ch == '[' || ch == ']' || ch == '{' || ch == '}'
}

fn is_digit_char(ch: char) -> (r: bool)
    ensures
        r == digit_char(ch),
{
    ('0' <= ch && ch <= '9') || ch == '.' || ch == '-' || ch == 'e' || ch == 'E' || ch == '+'
}

fn is_param_char(ch: char) -> (r: bool)
    ensures
        r == param_char(ch),
{
    ('0' <= ch && ch <= '9') || ('a' <= ch && ch <= 'z') || ('A' <= ch && ch <= 'Z') || ch == '.'
        || ch == '_'
}

fn is_name_start_char(ch: char) -> (r: bool)
    ensures
        r == name_start_char(ch),
{
    ('a' <= ch && ch <= 'z') || ('A' <= ch && ch <= 'Z') || ch == '_'
}

fn is_operator_start_char(ch: char) -> (r: bool)
    ensures
        r == operator_start_char(ch),
{
    ch == '+' || ch == '-' || ch == '*' || ch == '/' || ch == '^' || ch == '%' || ch == '&' || ch
        == '!' || ch == '=' || ch == '?' || ch == ':' || ch == '>' || ch == '<' || ch == '|'
}

/// The first place at or after `i` that holds no whitespace.
pub open spec fn skip_whitespace(s: Seq<char>, i: int) -> int
    decreases s.len() - i,
{
    if 0 <= i < s.len() && whitespace_char(s[i]) {
        skip_whitespace(s, i + 1)
    } else {
        i
    }
}

/// The end of the name that holds the place before `i`.
pub open spec fn name_end(s: Seq<char>, i: int) -> int
    decreases s.len() - i,
{
    if 0 <= i < s.len() && param_char(s[i]) {
        name_end(s, i + 1)
    } else {
        i
    }
}

/// The end of the number that holds the place before `i`.
pub open spec fn number_end(s: Seq<char>, i: int) -> int
    decreases s.len() - i,
{
    if 0 < i < s.len() && number_continues(s[i - 1], s[i]) {
        number_end(s, i + 1)
    } else {
        i
    }
}

/// The first place at or after `i` that holds `quote`, or the end of the
/// text.
pub open spec fn quote_end(s: Seq<char>, i: int, quote: char) -> int
    decreases s.len() - i,
{
    if 0 <= i < s.len() && s[i] != quote {
        quote_end(s, i + 1, quote)
    } else {
        i
    }
}

/// The end of the symbolic operator that begins at `start` and holds the
/// places up to `end`: it takes one more character for as long as the longer
/// text is an operator in the tables.
pub open spec fn operator_end(s: Seq<char>, r: RegistryView, start: int, end: int) -> int
    decreases s.len() - end,
{
    if 0 <= start < end < s.len() && known_op(r, s.subrange(start, end + 1)) {
        operator_end(s, r, start, end + 1)
    } else {
        end
    }
}

/// The byte offset of the place `i` in the text's UTF-8 form.
pub open spec fn byte_offset(s: Seq<char>, i: int) -> usize {
    encode_utf8(s.subrange(0, i)).len() as usize
}

pub open spec fn span_of(s: Seq<char>, start: int, end: int) -> Span {
    Span(byte_offset(s, start), byte_offset(s, end))
}

/// Whether `atom` is the word `true` in any mix of cases.
pub open spec fn true_word(atom: Seq<char>) -> bool {
    &&& atom.len() == 4
    &&& (atom[0] == 't' || atom[0] == 'T')
    &&& (atom[1] == 'r' || atom[1] == 'R')
    &&& (atom[2] == 'u' || atom[2] == 'U')
    &&& (atom[3] == 'e' || atom[3] == 'E')
}

/// Whether `atom` is the word `false` in any mix of cases.
pub open spec fn false_word(atom: Seq<char>) -> bool {
    &&& atom.len() == 5
    &&& (atom[0] == 'f' || atom[0] == 'F')
    &&& (atom[1] == 'a' || atom[1] == 'A')
    &&& (atom[2] == 'l' || atom[2] == 'L')
    &&& (atom[3] == 's' || atom[3] == 'S')
    &&& (atom[4] == 'e' || atom[4] == 'E')
}

/// The token that the name from `start` to `end` makes: a truth value, an
/// operator where the tables hold the name, a function where an open
/// parenthesis follows, else a reference.
pub open spec fn name_token(s: Seq<char>, r: RegistryView, start: int, end: int) -> TokenView {
    let atom = s.subrange(start, end);
    let span = span_of(s, start, end);
    let after = skip_whitespace(s, end);
    if true_word(atom) {
        TokenView::Bool(true, span)
    } else if false_word(atom) {
        TokenView::Bool(false, span)
    } else if known_op(r, atom) {
        TokenView::Operator(atom, span)
    } else if after < s.len() && s[after] == '(' {
        TokenView::Function(atom, span)
    } else {
        TokenView::Reference(atom, span)
    }
}

/// The token that begins at `start`, where the text holds a character that
/// is no whitespace, and the place after it.
pub open spec fn token_at(s: Seq<char>, r: RegistryView, start: int) -> (
    Result<TokenView, ErrorView>,
    int,
) {
    let ch = s[start];
    if operator_start_char(ch) {
        let end = operator_end(s, r, start, start + 1);
        (Ok(TokenView::Operator(s.subrange(start, end), span_of(s, start, end))), end)
    } else if delim_char(ch) {
        (Ok(TokenView::Delim(delim_of_char(ch), span_of(s, start, start + 1))), start + 1)
    } else if '0' <= ch && ch <= '9' {
        let end = number_end(s, start + 1);
        let text = s.subrange(start, end);
        match decimal_parse(text) {
            Some(d) => (Ok(TokenView::Number(d, span_of(s, start, end))), end),
            None => (Err(ErrorView::InvalidNumber(text)), end),
        }
    } else if ch == '"' || ch == '\'' {
        let close = quote_end(s, start + 1, ch);
        if close < s.len() {
            (
                Ok(TokenView::String(s.subrange(start + 1, close), span_of(s, start, close + 1))),
                close + 1,
            )
        } else {
            (Err(ErrorView::UnterminatedString(byte_offset(s, s.len() as int) as int)), close)
        }
    } else if ch == ';' {
        (
            Ok(TokenView::Semicolon(s.subrange(start, start + 1), span_of(s, start, start + 1))),
            start + 1,
        )
    } else if ch == ',' {
        (
            Ok(TokenView::Comma(s.subrange(start, start + 1), span_of(s, start, start + 1))),
            start + 1,
        )
    } else if name_start_char(ch) {
        let end = name_end(s, start + 1);
        (Ok(name_token(s, r, start, end)), end)
    } else {
        (Err(ErrorView::NotSupportedChar(byte_offset(s, start) as int, ch)), start + 1)
    }
}

/// The next token of the text `s` from the place `pos` on, read against the
/// tables `r`, and the place after it. At the end of the text the token is
/// `EOF`, as often as it is asked for.
pub open spec fn lex(s: Seq<char>, r: RegistryView, pos: int) -> (
    Result<TokenView, ErrorView>,
    int,
) {
    let start = skip_whitespace(s, pos);
    if start >= s.len() {
        (Ok(TokenView::EOF), start)
    } else {
        token_at(s, r, start)
    }
}

pub proof fn lemma_skip_whitespace_bounds(s: Seq<char>, i: int)
    requires
        0 <= i <= s.len(),
    ensures
        i <= skip_whitespace(s, i) <= s.len(),
    decreases s.len() - i,
{
    if i < s.len() && whitespace_char(s[i]) {
        lemma_skip_whitespace_bounds(s, i + 1);
    }
}

pub proof fn lemma_name_end_bounds(s: Seq<char>, i: int)
    requires
        0 <= i <= s.len(),
    ensures
        i <= name_end(s, i) <= s.len(),
    decreases s.len() - i,
{
    if i < s.len() && param_char(s[i]) {
        lemma_name_end_bounds(s, i + 1);
    }
}

pub proof fn lemma_number_end_bounds(s: Seq<char>, i: int)
    requires
        0 <= i <= s.len(),
    ensures
        i <= number_end(s, i) <= s.len(),
    decreases s.len() - i,
{
    if 0 < i < s.len() && number_continues(s[i - 1], s[i]) {
        lemma_number_end_bounds(s, i + 1);
    }
}

pub proof fn lemma_quote_end_bounds(s: Seq<char>, i: int, quote: char)
    requires
        0 <= i <= s.len(),
    ensures
        i <= quote_end(s, i, quote) <= s.len(),
    decreases s.len() - i,
{
    if i < s.len() && s[i] != quote {
        lemma_quote_end_bounds(s, i + 1, quote);
    }
}

pub proof fn lemma_operator_end_bounds(s: Seq<char>, r: RegistryView, start: int, end: int)
    requires
        0 <= start < end <= s.len(),
    ensures
        end <= operator_end(s, r, start, end) <= s.len(),
    decreases s.len() - end,
{
    if end < s.len() && known_op(r, s.subrange(start, end + 1)) {
        lemma_operator_end_bounds(s, r, start, end + 1);
    }
}

/// Lexing moves forward: the place after a token is within the text and not
/// before the place where lexing began, and a token other than `EOF` takes
/// at least one character.
pub proof fn lemma_lex_advances(s: Seq<char>, r: RegistryView, pos: int)
    requires
        0 <= pos <= s.len(),
    ensures
        pos <= lex(s, r, pos).1 <= s.len(),
        lex(s, r, pos).0 != Ok::<TokenView, ErrorView>(TokenView::EOF) ==> pos < lex(s, r, pos).1,
        lex(s, r, pos).0 == Ok::<TokenView, ErrorView>(TokenView::EOF) ==> lex(s, r, pos).1
            == s.len(),
{
    lemma_skip_whitespace_bounds(s, pos);
    let start = skip_whitespace(s, pos);
    if start < s.len() {
        lemma_operator_end_bounds(s, r, start, start + 1);
        lemma_number_end_bounds(s, start + 1);
        lemma_quote_end_bounds(s, start + 1, s[start]);
        lemma_name_end_bounds(s, start + 1);
    }
}

/// The operator that begins at a place is the same under two sets of
/// tables that know the same texts as operators.
pub proof fn lemma_operator_end_by_names(
    s: Seq<char>,
    r1: RegistryView,
    r2: RegistryView,
    start: int,
    end: int,
)
    requires
        forall|op: Seq<char>| known_op(r1, op) == known_op(r2, op),
    ensures
        operator_end(s, r1, start, end) == operator_end(s, r2, start, end),
    decreases s.len() - end,
{
    if 0 <= start < end < s.len() && known_op(r1, s.subrange(start, end + 1)) {
        lemma_operator_end_by_names(s, r1, r2, start, end + 1);
    }
}

/// What is an operator is decided by the tables as they are, and by
/// nothing else of them than the names they hold: two sets of tables that
/// know the same texts as operators split every text into the same tokens.
pub proof fn lemma_lex_by_names(s: Seq<char>, r1: RegistryView, r2: RegistryView, pos: int)
    requires
        forall|op: Seq<char>| known_op(r1, op) == known_op(r2, op),
    ensures
        lex(s, r1, pos) == lex(s, r2, pos),
{
    let start = skip_whitespace(s, pos);
    lemma_operator_end_by_names(s, r1, r2, start, start + 1);
}

/// Once the end of the text is reached, every further token is `EOF`.
pub proof fn lemma_eof_again(s: Seq<char>, r: RegistryView, pos: int)
    requires
        0 <= pos <= s.len(),
        lex(s, r, pos).0 == Ok::<TokenView, ErrorView>(TokenView::EOF),
    ensures
        lex(s, r, lex(s, r, pos).1) == lex(s, r, pos),
{
    lemma_lex_advances(s, r, pos);
    let end = lex(s, r, pos).1;
    assert(skip_whitespace(s, end) == end);
}

/// The characters of a text, in order.
fn chars_of(input: &str) -> (v: Vec<char>)
    ensures
        v@ == input@,
{
    let mut v: Vec<char> = Vec::new();
    let mut it = input.chars();
    loop
        invariant
            v@ + it.remaining() == input@,
            it.obeys_prophetic_iter_laws(),
            it.decrease() is Some,
        ensures
            v@ == input@,
        decreases it.decrease()->0,
    {
        let ghost before = it;
        let ghost seen = v@;
        match it.next() {
            Some(c) => {
                v.push(c);
                assert(v@ + it.remaining() =~= seen + before.remaining());
            },
            None => {
                assert(v@ + it.remaining() =~= v@);
                break;
            },
        }
    }
    v
}

/// Whether a token is the bracket, the operator or the comma with the text
/// `expected`.
pub open spec fn token_has_text(token: TokenView, expected: Seq<char>) -> bool {
    match token {
        TokenView::Delim(d, _) => delim_text(d) == expected,
        TokenView::Operator(op, _) => op == expected,
        TokenView::Comma(c, _) => c == expected,
        _ => false,
    }
}

/// The view of a lexing result.
pub open spec fn token_result(r: Result<Token, Error>) -> Result<TokenView, ErrorView> {
    match r {
        Ok(t) => Ok(t@),
        Err(e) => Err(e@),
    }
}

/// What a tokenizer is at a moment: the text, the place up to which it has
/// read, and the last two tokens it has handed out.
pub struct TokenizerView {
    pub input: Seq<char>,
    pub pos: int,
    pub cur_token: TokenView,
    pub prev_token: TokenView,
}

/// Reads a text token by token, against the operator tables as they are at
/// each call.
pub struct Tokenizer<'a> {
    input: &'a str,
    chars: Vec<char>,
    pos: usize,
    cur_token: Token,
    prev_token: Token,
}

impl<'a> Tokenizer<'a> {
    #[verifier::type_invariant]
    spec fn inv(self) -> bool {
        &&& self.chars@ == self.input@
        &&& self.pos <= self.chars@.len()
    }

    pub closed spec fn view(&self) -> TokenizerView {
        TokenizerView {
            input: self.input@,
            pos: self.pos as int,
            cur_token: self.cur_token@,
            prev_token: self.prev_token@,
        }
    }

    /// A tokenizer at the beginning of `input`. Its current token is `EOF`
    /// until the first call of `next`.
    pub fn new(input: &'a str) -> (r: Tokenizer<'a>)
        ensures
            r@ == (TokenizerView {
                input: input@,
                pos: 0,
                cur_token: TokenView::EOF,
                prev_token: TokenView::EOF,
            }),
    {
        Tokenizer {
            input,
            chars: chars_of(input),
            pos: 0,
            cur_token: Token::EOF,
            prev_token: Token::EOF,
        }
    }

    /// The token that the last successful `next` returned.
    pub fn cur_token(&self) -> (t: &Token)
        ensures
            t@ == self@.cur_token,
            0 <= self@.pos <= self@.input.len(),
    {
        proof {
            use_type_invariant(self);
        }
        &self.cur_token
    }

    /// The token that was current before the last call of `next`.
    pub fn prev_token(&self) -> (t: &Token)
        ensures
            t@ == self@.prev_token,
    {
        &self.prev_token
    }

    fn byte_index(&self, i: usize) -> (r: usize)
        requires
            self.chars@ == self.input@,
            i <= self.chars@.len(),
        ensures
            r == byte_offset(self.input@, i as int),
    {
        self.input.substring_char(0, i).len()
    }

    fn span(&self, start: usize, end: usize) -> (r: Span)
        requires
            self.chars@ == self.input@,
            start <= end <= self.chars@.len(),
        ensures
            r == span_of(self.input@, start as int, end as int),
    {
        Span(self.byte_index(start), self.byte_index(end))
    }

    fn text(&self, start: usize, end: usize) -> (r: String)
        requires
            self.chars@ == self.input@,
            start <= end <= self.chars@.len(),
        ensures
            r@ == self.input@.subrange(start as int, end as int),
    {
        String::from_str(self.input.substring_char(start, end))
    }

    fn skip(&self, from: usize) -> (r: usize)
        requires
            from <= self.chars@.len(),
        ensures
            r == skip_whitespace(self.chars@, from as int),
            from <= r <= self.chars@.len(),
    {
        let mut i = from;
        while i < self.chars.len() && is_whitespace_char(self.chars[i])
            invariant
                from <= i <= self.chars@.len(),
                skip_whitespace(self.chars@, i as int) == skip_whitespace(
                    self.chars@,
                    from as int,
                ),
            decreases self.chars@.len() - i,
        {
            i += 1;
        }
        i
    }

    fn name_stop(&self, from: usize) -> (r: usize)
        requires
            from <= self.chars@.len(),
        ensures
            r == name_end(self.chars@, from as int),
            from <= r <= self.chars@.len(),
    {
        let mut i = from;
        while i < self.chars.len() && is_param_char(self.chars[i])
            invariant
                from <= i <= self.chars@.len(),
                name_end(self.chars@, i as int) == name_end(self.chars@, from as int),
            decreases self.chars@.len() - i,
        {
            i += 1;
        }
        i
    }

    fn number_stop(&self, from: usize) -> (r: usize)
        requires
            0 < from <= self.chars@.len(),
        ensures
            r == number_end(self.chars@, from as int),
            from <= r <= self.chars@.len(),
    {
        let mut i = from;
        while i < self.chars.len()
            invariant
                0 < from <= i <= self.chars@.len(),
                number_end(self.chars@, i as int) == number_end(self.chars@, from as int),
            ensures
                number_end(self.chars@, i as int) == i,
            decreases self.chars@.len() - i,
        {
            let ch = self.chars[i];
            let prev = self.chars[i - 1];
            if (ch == '+' || ch == '-') && prev != 'e' && prev != 'E' {
                break;
            }
            if !is_digit_char(ch) {
                break;
            }
            i += 1;
        }
        i
    }

    fn quote_stop(&self, from: usize, quote: char) -> (r: usize)
        requires
            from <= self.chars@.len(),
        ensures
            r == quote_end(self.chars@, from as int, quote),
            from <= r <= self.chars@.len(),
    {
        let mut i = from;
        while i < self.chars.len() && self.chars[i] != quote
            invariant
                from <= i <= self.chars@.len(),
                quote_end(self.chars@, i as int, quote) == quote_end(
                    self.chars@,
                    from as int,
                    quote,
                ),
            decreases self.chars@.len() - i,
        {
            i += 1;
        }
        i
    }

    fn operator_stop(&self, registry: &Registry, start: usize, from: usize) -> (r: usize)
        requires
            self.chars@ == self.input@,
            start < from <= self.chars@.len(),
        ensures
            r == operator_end(self.chars@, registry@, start as int, from as int),
            from <= r <= self.chars@.len(),
    {
        let mut end = from;
        while end < self.chars.len()
            invariant
                self.chars@ == self.input@,
                start < from <= end <= self.chars@.len(),
                operator_end(self.chars@, registry@, start as int, end as int) == operator_end(
                    self.chars@,
                    registry@,
                    start as int,
                    from as int,
                ),
            ensures
                operator_end(self.chars@, registry@, start as int, end as int) == end,
            decreases self.chars@.len() - end,
        {
            let candidate = self.input.substring_char(start, end + 1);
            if !is_op(registry, candidate) {
                break;
            }
            end += 1;
        }
        end
    }

    fn is_true_word(&self, start: usize, end: usize) -> (r: bool)
        requires
            start <= end <= self.chars@.len(),
        ensures
            r == true_word(self.chars@.subrange(start as int, end as int)),
    {
        let ghost atom = self.chars@.subrange(start as int, end as int);
        if end - start != 4 {
            return false;
        }
        assert(atom[0] == self.chars@[start as int]);
        assert(atom[1] == self.chars@[start + 1]);
        assert(atom[2] == self.chars@[start + 2]);
        assert(atom[3] == self.chars@[start + 3]);
        let a = self.chars[start];
        let b = self.chars[start + 1];
        let c = self.chars[start + 2];
        let d = self.chars[start + 3];
        (a == 't' || a == 'T') && (b == 'r' || b == 'R') && (c == 'u' || c == 'U') && (d == 'e'
            || d == 'E')
    }

    fn is_false_word(&self, start: usize, end: usize) -> (r: bool)
        requires
            start <= end <= self.chars@.len(),
        ensures
            r == false_word(self.chars@.subrange(start as int, end as int)),
    {
        let ghost atom = self.chars@.subrange(start as int, end as int);
        if end - start != 5 {
            return false;
        }
        assert(atom[0] == self.chars@[start as int]);
        assert(atom[1] == self.chars@[start + 1]);
        assert(atom[2] == self.chars@[start + 2]);
        assert(atom[3] == self.chars@[start + 3]);
        assert(atom[4] == self.chars@[start + 4]);
        let a = self.chars[start];
        let b = self.chars[start + 1];
        let c = self.chars[start + 2];
        let d = self.chars[start + 3];
        let e = self.chars[start + 4];
        (a == 'f' || a == 'F') && (b == 'a' || b == 'A') && (c == 'l' || c == 'L') && (d == 's'
            || d == 'S') && (e == 'e' || e == 'E')
    }

    fn name_at(&self, registry: &Registry, start: usize, end: usize) -> (r: Token)
        requires
            self.chars@ == self.input@,
            start <= end <= self.chars@.len(),
        ensures
            r@ == name_token(self.chars@, registry@, start as int, end as int),
    {
        let span = self.span(start, end);
        if self.is_true_word(start, end) {
            return Token::Bool(true, span);
        }
        if self.is_false_word(start, end) {
            return Token::Bool(false, span);
        }
        let atom = self.text(start, end);
        if is_op(registry, atom.as_str()) {
            return Token::Operator(atom, span);
        }
        let after = self.skip(end);
        if after < self.chars.len() && self.chars[after] == '(' {
            Token::Function(atom, span)
        } else {
            Token::Reference(atom, span)
        }
    }

    /// The token that begins at or after the place `pos`, and the place
    /// after it.
    fn scan(&self, registry: &Registry, pos: usize) -> (r: (Result<Token, Error>, usize))
        requires
            self.chars@ == self.input@,
            pos <= self.chars@.len(),
        ensures
            token_result(r.0) == lex(self.input@, registry@, pos as int).0,
            r.1 == lex(self.input@, registry@, pos as int).1,
            pos <= r.1 <= self.chars@.len(),
    {
        proof {
            lemma_lex_advances(self.input@, registry@, pos as int);
        }
        let start = self.skip(pos);
        if start >= self.chars.len() {
            return (Ok(Token::EOF), start);
        }
        let ch = self.chars[start];
        if is_operator_start_char(ch) {
            let end = self.operator_stop(registry, start, start + 1);
            (Ok(Token::Operator(self.text(start, end), self.span(start, end))), end)
        } else if is_delim_char(ch) {
            (Ok(Token::Delim(DelimTokenType::from(ch), self.span(start, start + 1))), start + 1)
        } else if '0' <= ch && ch <= '9' {
            let end = self.number_stop(start + 1);
            let text = self.text(start, end);
            match Number::parse(text.as_str()) {
                Some(val) => (Ok(Token::Number(val, self.span(start, end))), end),
                None => (Err(Error::InvalidNumber(text)), end),
            }
        } else if ch == '"' || ch == '\'' {
            let close = self.quote_stop(start + 1, ch);
            if close < self.chars.len() {
                (
                    Ok(Token::String(self.text(start + 1, close), self.span(start, close + 1))),
                    close + 1,
                )
            } else {
                (Err(Error::UnterminatedString(self.byte_index(self.chars.len()))), close)
            }
        } else if ch == ';' {
            (Ok(Token::Semicolon(self.text(start, start + 1), self.span(start, start + 1))), start + 1)
        } else if ch == ',' {
            (Ok(Token::Comma(self.text(start, start + 1), self.span(start, start + 1))), start + 1)
        } else if is_name_start_char(ch) {
            let end = self.name_stop(start + 1);
            (Ok(self.name_at(registry, start, end)), end)
        } else {
            (Err(Error::NotSupportedChar(self.byte_index(start), ch)), start + 1)
        }
    }

    /// Reads the next token and makes it the current one. Where the text
    /// from here on begins with no token, the failure is returned, the
    /// current token stays, and the text up to the fault counts as read.
    pub fn next(&mut self, registry: &Registry) -> (r: Result<Token, Error>)
        ensures
            token_result(r) == lex(old(self)@.input, registry@, old(self)@.pos).0,
            final(self)@.input == old(self)@.input,
            final(self)@.pos == lex(old(self)@.input, registry@, old(self)@.pos).1,
            final(self)@.prev_token == old(self)@.cur_token,
            final(self)@.cur_token == (match r {
                Ok(t) => t@,
                Err(_) => old(self)@.cur_token,
            }),
            0 <= old(self)@.pos <= final(self)@.pos <= old(self)@.input.len(),
    {
        proof {
            use_type_invariant(&*self);
        }
        let (token, pos) = self.scan(registry, self.pos);
        self.prev_token = self.cur_token.clone();
        self.pos = pos;
        match token {
            Ok(t) => {
                self.cur_token = t.clone();
                Ok(t)
            },
            Err(e) => Err(e),
        }
    }

    /// The token that `next` would return, without reading it.
    pub fn peek(&self, registry: &Registry) -> (r: Result<Token, Error>)
        ensures
            token_result(r) == lex(self@.input, registry@, self@.pos).0,
    {
        proof {
            use_type_invariant(self);
        }
        self.scan(registry, self.pos).0
    }

    /// Reads the next token, and then asks that the token that was current
    /// before be the bracket, the operator or the comma `op`. A failure to
    /// read the next token comes first.
    pub fn expect(&mut self, registry: &Registry, op: &str) -> (r: Result<(), Error>)
        ensures
            final(self)@.input == old(self)@.input,
            final(self)@.pos == lex(old(self)@.input, registry@, old(self)@.pos).1,
            final(self)@.prev_token == old(self)@.cur_token,
            0 <= old(self)@.pos <= final(self)@.pos <= old(self)@.input.len(),
            match lex(old(self)@.input, registry@, old(self)@.pos).0 {
                Err(e) => r matches Err(x) && x@ == e && final(self)@.cur_token
                    == old(self)@.cur_token,
                Ok(t) => final(self)@.cur_token == t && (if token_has_text(
                    old(self)@.cur_token,
                    op@,
                ) {
                    r is Ok
                } else {
                    r matches Err(x) && x@ == ErrorView::ExpectedOpNotExist(op@)
                }),
            },
    {
        let token = self.cur_token.clone();
        self.next(registry)?;
        let found = match &token {
            Token::Delim(bracket, _) => {
                let text = bracket.string();
                same_text(text.as_str(), op)
            },
            Token::Operator(operator, _) => same_text(operator.as_str(), op),
            Token::Comma(c, _) => same_text(c.as_str(), op),
            _ => false,
        };
        if found {
            Ok(())
        } else {
            Err(Error::ExpectedOpNotExist(String::from_str(op)))
        }
    }
}

} // verus!

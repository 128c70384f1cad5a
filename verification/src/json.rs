//! The JSON that settings are written in.
//!
//! Objects keep their keys in order, and of a key that occurs twice the last value. Numbers stay
//! texts.
use crate::table::{entries, found, insert_entry, inserted};
use crate::text::{cat2, cat3, cat5, chars_of, is_white, is_white_char, viewed};
use vstd::prelude::*;
use vstd::string::*;

verus! {

/// `char::from_u32` gives the character with a number, and nothing for a number above 0x10FFFF
/// and for the surrogates 0xD800 to 0xDFFF.
pub assume_specification[ char::from_u32 ](i: u32) -> (r: Option<char>)
    ensures
        r == (if is_scalar_value(i as int) {
            Some(i as char)
        } else {
            None
        }),
;

/// The number is that of a character.
pub open spec fn is_scalar_value(n: int) -> bool {
    0 <= n <= 0xD7FF || 0xE000 <= n <= 0x10FFFF
}

// ---------------------------------------------------------------------------
// Values
// ---------------------------------------------------------------------------

#[derive(Debug)]
pub enum JsonValue {
    Object(Vec<(String, JsonValue)>),
    Array(Vec<JsonValue>),
    String(String),
    Number(String),
    Bool(bool),
    Null,
}

/// A JSON value by its parts.
#[verifier::ext_equal]
pub enum JsonModel {
    Object(Seq<(Seq<char>, JsonModel)>),
    Array(Seq<JsonModel>),
    String(Seq<char>),
    Number(Seq<char>),
    Bool(bool),
    Null,
}

pub open spec fn json_model(v: JsonValue) -> JsonModel
    decreases v,
{
    match v {
        JsonValue::Object(members) => JsonModel::Object(member_models(members@)),
        JsonValue::Array(values) => JsonModel::Array(json_models(values@)),
        JsonValue::String(text) => JsonModel::String(text@),
        JsonValue::Number(text) => JsonModel::Number(text@),
        JsonValue::Bool(b) => JsonModel::Bool(b),
        JsonValue::Null => JsonModel::Null,
    }
}

pub open spec fn json_models(vs: Seq<JsonValue>) -> Seq<JsonModel>
    decreases vs,
{
    if vs.len() == 0 {
        seq![]
    } else {
        json_models(vs.drop_last()).push(json_model(vs[vs.len() - 1]))
    }
}

pub open spec fn member_models(ms: Seq<(String, JsonValue)>) -> Seq<(Seq<char>, JsonModel)>
    decreases ms,
{
    if ms.len() == 0 {
        seq![]
    } else {
        let last = ms[ms.len() - 1];
        member_models(ms.drop_last()).push((last.0@, json_model(last.1)))
    }
}

impl DeepView for JsonValue {
    type V = JsonModel;

    open spec fn deep_view(&self) -> JsonModel {
        json_model(*self)
    }
}

pub proof fn lemma_json_models(vs: Seq<JsonValue>)
    ensures
        json_models(vs).len() == vs.len(),
        forall|i: int| 0 <= i < vs.len() ==> #[trigger] json_models(vs)[i] == json_model(vs[i]),
    decreases vs.len(),
{
    if vs.len() > 0 {
        lemma_json_models(vs.drop_last());
        assert forall|i: int| 0 <= i < vs.len() implies #[trigger] json_models(vs)[i] == json_model(
            vs[i],
        ) by {
            if i < vs.len() - 1 {
                assert(vs.drop_last()[i] == vs[i]);
            }
        }
    }
}

pub proof fn lemma_member_models(ms: Seq<(String, JsonValue)>)
    ensures
        member_models(ms) == entries(ms),
    decreases ms.len(),
{
    if ms.len() > 0 {
        lemma_member_models(ms.drop_last());
        assert(entries(ms) =~= entries(ms.drop_last()).push(
            (ms[ms.len() - 1].0@, json_model(ms[ms.len() - 1].1)),
        ));
    } else {
        assert(entries(ms) =~= Seq::<(Seq<char>, JsonModel)>::empty());
    }
}

// ---------------------------------------------------------------------------
// The grammar
// ---------------------------------------------------------------------------

/// The position behind white space.
pub open spec fn past_white(s: Seq<char>, p: int) -> int
    decreases s.len() - p,
{
    if 0 <= p < s.len() && is_white(s[p]) {
        past_white(s, p + 1)
    } else {
        p
    }
}

pub open spec fn digit_at(s: Seq<char>, p: int) -> bool {
    0 <= p < s.len() && '0' <= s[p] <= '9'
}

pub open spec fn char_at(s: Seq<char>, p: int, c: char) -> bool {
    0 <= p < s.len() && s[p] == c
}

/// The position behind digits.
pub open spec fn past_digits(s: Seq<char>, p: int) -> int
    decreases s.len() - p,
{
    if digit_at(s, p) {
        past_digits(s, p + 1)
    } else {
        p
    }
}

/// The position behind a character that must stand here.
pub open spec fn past_char(s: Seq<char>, p: int, c: char) -> Result<int, Seq<char>> {
    if p >= s.len() {
        Err("expected `"@ + seq![c] + "` but found end of file"@)
    } else if s[p] == c {
        Ok(p + 1)
    } else {
        Err("expected `"@ + seq![c] + "` but found `"@ + seq![s[p]] + "`"@)
    }
}

pub open spec fn hex_digit_value(c: char) -> Option<nat> {
    if '0' <= c <= '9' {
        Some((c as int - '0' as int) as nat)
    } else if 'a' <= c <= 'f' {
        Some((c as int - 'a' as int + 10) as nat)
    } else if 'A' <= c <= 'F' {
        Some((c as int - 'A' as int + 10) as nat)
    } else {
        None
    }
}

/// The number that hexadecimal digits denote.
pub open spec fn hex_digits_value(s: Seq<char>) -> Option<nat>
    decreases s.len(),
{
    if s.len() == 0 {
        Some(0)
    } else {
        match (hex_digits_value(s.drop_last()), hex_digit_value(s.last())) {
            (Some(high), Some(low)) => Some(high * 16 + low),
            _ => None,
        }
    }
}

/// The number that a text denotes in hexadecimal: one digit or more, after an optional `+`.
pub open spec fn hex_number(s: Seq<char>) -> Option<nat> {
    let d = if s.len() > 0 && s[0] == '+' {
        s.skip(1)
    } else {
        s
    };
    if d.len() == 0 {
        None
    } else {
        hex_digits_value(d)
    }
}

/// The character that an escape sequence stands for, from behind its backslash, and the position
/// behind the sequence.
pub open spec fn escape_at(s: Seq<char>, p: int) -> Result<(char, int), Seq<char>> {
    if p >= s.len() {
        Err("incomplete escape sequence in config file"@)
    } else if s[p] == '"' {
        Ok(('"', p + 1))
    } else if s[p] == '\\' {
        Ok(('\\', p + 1))
    } else if s[p] == '/' {
        Ok(('/', p + 1))
    } else if s[p] == 'b' {
        Ok(('\u{0008}', p + 1))
    } else if s[p] == 'f' {
        Ok(('\u{000C}', p + 1))
    } else if s[p] == 'n' {
        Ok(('\n', p + 1))
    } else if s[p] == 'r' {
        Ok(('\r', p + 1))
    } else if s[p] == 't' {
        Ok(('\t', p + 1))
    } else if s[p] == 'u' {
        if p + 5 > s.len() {
            Err("unexpected end of config file"@)
        } else {
            match hex_number(s.subrange(p + 1, p + 5)) {
                None => Err("invalid unicode escape in config file"@),
                Some(code) => if is_scalar_value(code as int) {
                    Ok((code as char, p + 5))
                } else {
                    Err("invalid unicode scalar in config file"@)
                },
            }
        }
    } else {
        Err("unsupported escape sequence: \\"@ + seq![s[p]])
    }
}

/// The rest of a string from position `p` on, behind what was read of it, and the position behind
/// its closing quote.
pub open spec fn string_rest(s: Seq<char>, p: int, read: Seq<char>) -> Result<
    (Seq<char>, int),
    Seq<char>,
>
    decreases s.len() - p,
{
    if p < 0 || p >= s.len() {
        Err("unterminated string in config file"@)
    } else if s[p] == '"' {
        Ok((read, p + 1))
    } else if s[p] == '\\' {
        match escape_at(s, p + 1) {
            Err(e) => Err(e),
            Ok((c, q)) => if q > p {
                string_rest(s, q, read.push(c))
            } else {
                Ok((read, p))
            },
        }
    } else {
        string_rest(s, p + 1, read.push(s[p]))
    }
}

pub open spec fn string_at(s: Seq<char>, p: int) -> Result<(Seq<char>, int), Seq<char>> {
    match past_char(s, p, '"') {
        Err(e) => Err(e),
        Ok(q) => string_rest(s, q, seq![]),
    }
}

/// The position behind one digit or more.
pub open spec fn past_required_digits(s: Seq<char>, p: int) -> Result<int, Seq<char>> {
    if digit_at(s, p) {
        Ok(past_digits(s, p))
    } else {
        Err("invalid number in config file"@)
    }
}

/// The position behind the integer part of a number: `0`, or digits that do not start with it.
pub open spec fn past_integer(s: Seq<char>, p: int) -> Result<int, Seq<char>> {
    let q = if char_at(s, p, '-') {
        p + 1
    } else {
        p
    };
    if char_at(s, q, '0') {
        Ok(q + 1)
    } else {
        past_required_digits(s, q)
    }
}

pub open spec fn past_fraction(s: Seq<char>, p: int) -> Result<int, Seq<char>> {
    if char_at(s, p, '.') {
        past_required_digits(s, p + 1)
    } else {
        Ok(p)
    }
}

pub open spec fn past_exponent(s: Seq<char>, p: int) -> Result<int, Seq<char>> {
    if char_at(s, p, 'e') || char_at(s, p, 'E') {
        past_required_digits(
            s,
            if char_at(s, p + 1, '+') || char_at(s, p + 1, '-') {
                p + 2
            } else {
                p + 1
            },
        )
    } else {
        Ok(p)
    }
}

pub open spec fn number_at(s: Seq<char>, p: int) -> Result<(Seq<char>, int), Seq<char>> {
    match past_integer(s, p) {
        Err(e) => Err(e),
        Ok(a) => match past_fraction(s, a) {
            Err(e) => Err(e),
            Ok(b) => match past_exponent(s, b) {
                Err(e) => Err(e),
                Ok(c) => Ok((s.subrange(p, c), c)),
            },
        },
    }
}

pub open spec fn keyword_at(s: Seq<char>, p: int, keyword: Seq<char>, value: JsonModel) -> Result<
    (JsonModel, int),
    Seq<char>,
> {
    if p + keyword.len() <= s.len() && s.subrange(p, p + keyword.len()) == keyword {
        Ok((value, p + keyword.len()))
    } else {
        Err("invalid token in config file near `"@ + keyword + "`"@)
    }
}

/// The value at position `p` and the position behind it.
pub open spec fn value_at(s: Seq<char>, p: int) -> Result<(JsonModel, int), Seq<char>>
    decreases s.len() - p, 0int,
{
    if p < 0 || p >= s.len() {
        Err("unexpected end of config file"@)
    } else if s[p] == '{' {
        proof {
            lemma_past_white(s, p + 1);
        }
        let q = past_white(s, p + 1);
        if char_at(s, q, '}') {
            Ok((JsonModel::Object(seq![]), q + 1))
        } else {
            members_from(s, q, seq![])
        }
    } else if s[p] == '[' {
        proof {
            lemma_past_white(s, p + 1);
        }
        let q = past_white(s, p + 1);
        if char_at(s, q, ']') {
            Ok((JsonModel::Array(seq![]), q + 1))
        } else {
            items_from(s, q, seq![])
        }
    } else if s[p] == '"' {
        match string_at(s, p) {
            Ok((text, q)) => Ok((JsonModel::String(text), q)),
            Err(e) => Err(e),
        }
    } else if s[p] == 't' {
        keyword_at(s, p, "true"@, JsonModel::Bool(true))
    } else if s[p] == 'f' {
        keyword_at(s, p, "false"@, JsonModel::Bool(false))
    } else if s[p] == 'n' {
        keyword_at(s, p, "null"@, JsonModel::Null)
    } else if s[p] == '-' || digit_at(s, p) {
        match number_at(s, p) {
            Ok((text, q)) => Ok((JsonModel::Number(text), q)),
            Err(e) => Err(e),
        }
    } else {
        Err("unexpected character in config file: `"@ + seq![s[p]] + "`"@)
    }
}

/// A key, a colon and the value behind them, and the position behind the value.
pub open spec fn member_at(s: Seq<char>, p: int) -> Result<
    (Seq<char>, JsonModel, int),
    Seq<char>,
>
    decreases s.len() - p, 1int,
{
    proof {
        lemma_past_white(s, p);
        lemma_string_at(s, past_white(s, p));
    }
    match string_at(s, past_white(s, p)) {
        Err(e) => Err(e),
        Ok((key, a)) => {
            proof {
                lemma_past_white(s, a);
                lemma_past_white(s, past_white(s, a) + 1);
            }
            match past_char(s, past_white(s, a), ':') {
                Err(e) => Err(e),
                Ok(b) => match value_at(s, past_white(s, b)) {
                    Err(e) => Err(e),
                    Ok((value, c)) => Ok((key, value, c)),
                },
            }
        },
    }
}

/// The members of an object from position `p` on, put with those that were read.
pub open spec fn members_from(s: Seq<char>, p: int, read: Seq<(Seq<char>, JsonModel)>) -> Result<
    (JsonModel, int),
    Seq<char>,
>
    decreases s.len() - p, 2int,
{
    match member_at(s, p) {
        Err(e) => Err(e),
        Ok((key, value, c)) => {
            let all = inserted(read, key, value);
            let d = past_white(s, c);
            if char_at(s, d, ',') && d >= p {
                members_from(s, d + 1, all)
            } else if char_at(s, d, '}') {
                Ok((JsonModel::Object(all), d + 1))
            } else {
                Err("expected `,` or `}` in config object"@)
            }
        },
    }
}

/// The items of an array from position `p` on, put behind those that were read.
pub open spec fn items_from(s: Seq<char>, p: int, read: Seq<JsonModel>) -> Result<
    (JsonModel, int),
    Seq<char>,
>
    decreases s.len() - p, 1int,
{
    proof {
        lemma_past_white(s, p);
    }
    match value_at(s, past_white(s, p)) {
        Err(e) => Err(e),
        Ok((value, c)) => {
            let all = read.push(value);
            let d = past_white(s, c);
            if char_at(s, d, ',') && d >= p {
                items_from(s, d + 1, all)
            } else if char_at(s, d, ']') {
                Ok((JsonModel::Array(all), d + 1))
            } else {
                Err("expected `,` or `]` in config array"@)
            }
        },
    }
}

/// The value of a whole text.
pub open spec fn json_text(s: Seq<char>) -> Result<JsonModel, Seq<char>> {
    match value_at(s, past_white(s, 0)) {
        Err(e) => Err(e),
        Ok((value, q)) => if past_white(s, q) < s.len() {
            Err("unexpected trailing characters in config file"@)
        } else {
            Ok(value)
        },
    }
}

// ---------------------------------------------------------------------------
// Positions
// ---------------------------------------------------------------------------

pub proof fn lemma_past_white(s: Seq<char>, p: int)
    ensures
        past_white(s, p) >= p,
        p <= s.len() ==> past_white(s, p) <= s.len(),
    decreases s.len() - p,
{
    if 0 <= p < s.len() && is_white(s[p]) {
        lemma_past_white(s, p + 1);
    }
}

proof fn lemma_past_digits(s: Seq<char>, p: int)
    ensures
        past_digits(s, p) >= p,
        p <= s.len() ==> past_digits(s, p) <= s.len(),
        digit_at(s, p) ==> past_digits(s, p) > p,
    decreases s.len() - p,
{
    if digit_at(s, p) {
        lemma_past_digits(s, p + 1);
    }
}

proof fn lemma_string_rest(s: Seq<char>, p: int, read: Seq<char>)
    ensures
        string_rest(s, p, read) matches Ok((text, q)) ==> p < q <= s.len(),
    decreases s.len() - p,
{
    if 0 <= p < s.len() {
        if s[p] == '\\' {
            match escape_at(s, p + 1) {
                Ok((c, q)) => {
                    lemma_string_rest(s, q, read.push(c));
                },
                Err(e) => {},
            }
        } else if s[p] != '"' {
            lemma_string_rest(s, p + 1, read.push(s[p]));
        }
    }
}

pub proof fn lemma_string_at(s: Seq<char>, p: int)
    ensures
        string_at(s, p) matches Ok((text, q)) ==> p < q <= s.len(),
{
    lemma_string_rest(s, p + 1, seq![]);
}

// ---------------------------------------------------------------------------
// The parser
// ---------------------------------------------------------------------------

/// Reads a JSON text. Once a value was refused, nothing is read any more: where in the text the
/// parser is then has no meaning.
#[derive(Debug)]
pub struct JsonParser {
    input: Vec<char>,
    position: usize,
}

/// A character on its own.
fn char_text(c: char) -> (s: String)
    ensures
        s@ == seq![c],
{
    let mut s = String::new();
    s.push(c);
    assert(s@ =~= seq![c]);
    s
}

pub fn hex_value(c: char) -> (r: Option<u32>)
    ensures
        r == (match hex_digit_value(c) {
            Some(n) => Some(n as u32),
            None => None,
        }),
        r matches Some(n) ==> n < 16,
{
    if '0' <= c && c <= '9' {
        Some(c as u32 - 48)
    } else if 'a' <= c && c <= 'f' {
        Some(c as u32 - 97 + 10)
    } else if 'A' <= c && c <= 'F' {
        Some(c as u32 - 65 + 10)
    } else {
        None
    }
}

proof fn lemma_hex_bad(s: Seq<char>, i: int)
    requires
        0 <= i < s.len(),
        hex_digit_value(s[i]) is None,
    ensures
        hex_digits_value(s) is None,
    decreases s.len(),
{
    if i < s.len() - 1 {
        lemma_hex_bad(s.drop_last(), i);
    }
}

proof fn lemma_hex_bound(s: Seq<char>)
    requires
        s.len() <= 4,
        hex_digits_value(s) is Some,
    ensures
        s.len() == 0 ==> hex_digits_value(s)->0 == 0,
        s.len() == 1 ==> hex_digits_value(s)->0 < 16,
        s.len() == 2 ==> hex_digits_value(s)->0 < 256,
        s.len() == 3 ==> hex_digits_value(s)->0 < 4096,
        s.len() == 4 ==> hex_digits_value(s)->0 < 65536,
    decreases s.len(),
{
    if s.len() > 0 {
        lemma_hex_bound(s.drop_last());
    }
}

/// The number that up to four characters denote in hexadecimal.
pub fn parse_hex_number(chars: &Vec<char>) -> (r: Option<u32>)
    requires
        chars.len() <= 4,
    ensures
        r == (match hex_number(chars@) {
            Some(n) => Some(n as u32),
            None => None,
        }),
        hex_number(chars@) matches Some(n) ==> n < 65536,
{
    let start: usize = if chars.len() > 0 && chars[0] == '+' {
        1
    } else {
        0
    };
    let ghost d = chars@.skip(start as int);
    assert(start == 0 ==> d == chars@);
    let mut value: u32 = 0;
    let mut i: usize = start;
    assert(d.take(0) == Seq::<char>::empty());
    while i < chars.len()
        invariant
            start <= i <= chars.len(),
            chars.len() <= 4,
            d == chars@.skip(start as int),
            d.len() == chars.len() - start,
            d == (if chars@.len() > 0 && chars@[0] == '+' {
                chars@.skip(1)
            } else {
                chars@
            }),
            hex_digits_value(d.take(i - start)) == Some(value as nat),
        decreases chars.len() - i,
    {
        proof {
            lemma_hex_bound(d.take(i - start));
            assert(d.take(i - start + 1).drop_last() == d.take(i - start));
            assert(d.take(i - start + 1).last() == chars@[i as int]);
            assert(d[i - start] == chars@[i as int]);
        }
        match hex_value(chars[i]) {
            Some(n) => {
                value = value * 16 + n;
            },
            None => {
                proof {
                    lemma_hex_bad(d, i - start);
                }
                return None;
            },
        }
        i += 1;
    }
    assert(d.take(i - start) == d);
    proof {
        lemma_hex_bound(d);
    }
    if start == chars.len() {
        None
    } else {
        Some(value)
    }
}

impl JsonParser {
    pub closed spec fn text(&self) -> Seq<char> {
        self.input@
    }

    pub closed spec fn at(&self) -> int {
        self.position as int
    }

    /// The position is one of the text or its end.
    pub open spec fn wf(&self) -> bool {
        0 <= self.at() <= self.text().len()
    }

    pub fn new(input: &str) -> (parser: JsonParser)
        ensures
            parser.wf(),
            parser.text() == input@,
            parser.at() == 0,
    {
        JsonParser { input: chars_of(input), position: 0 }
    }

    /// Reads the whole text.
    pub fn parse(self) -> (r: Result<JsonValue, String>)
        requires
            self.wf(),
            self.at() == 0,
        ensures
            viewed(r) == json_text(self.text()),
    {
        let mut parser = self;
        parser.consume_whitespace();
        let value = parser.parse_value()?;
        parser.consume_whitespace();
        if parser.peek_char().is_some() {
            return Err("unexpected trailing characters in config file".to_owned());
        }
        Ok(value)
    }

    pub fn peek_char(&self) -> (r: Option<char>)
        requires
            self.wf(),
        ensures
            r == (if self.at() < self.text().len() {
                Some(self.text()[self.at()])
            } else {
                None
            }),
    {
        if self.position < self.input.len() {
            Some(self.input[self.position])
        } else {
            None
        }
    }

    pub fn next_char(&mut self) -> (r: Option<char>)
        requires
            old(self).wf(),
        ensures
            final(self).wf(),
            final(self).text() == old(self).text(),
            r == (if old(self).at() < old(self).text().len() {
                Some(old(self).text()[old(self).at()])
            } else {
                None
            }),
            final(self).at() == (if r is Some {
                old(self).at() + 1
            } else {
                old(self).at()
            }),
    {
        let c = self.peek_char();
        if self.position < self.input.len() {
            self.position = self.position + 1;
        }
        c
    }

    fn at_char(&self, c: char) -> (r: bool)
        requires
            self.wf(),
        ensures
            r == char_at(self.text(), self.at(), c),
    {
        match self.peek_char() {
            Some(actual) => actual == c,
            None => false,
        }
    }

    fn at_digit(&self) -> (r: bool)
        requires
            self.wf(),
        ensures
            r == digit_at(self.text(), self.at()),
    {
        match self.peek_char() {
            Some(c) => '0' <= c && c <= '9',
            None => false,
        }
    }

    pub fn consume_whitespace(&mut self)
        requires
            old(self).wf(),
        ensures
            final(self).wf(),
            final(self).text() == old(self).text(),
            final(self).at() == past_white(old(self).text(), old(self).at()),
    {
        while self.position < self.input.len() && is_white_char(self.input[self.position])
            invariant
                self.wf(),
                self.text() == old(self).text(),
                past_white(self.text(), self.at()) == past_white(old(self).text(), old(self).at()),
            decreases self.text().len() - self.at(),
        {
            self.position = self.position + 1;
        }
    }

    pub fn consume_digits(&mut self)
        requires
            old(self).wf(),
        ensures
            final(self).wf(),
            final(self).text() == old(self).text(),
            final(self).at() == past_digits(old(self).text(), old(self).at()),
    {
        while self.at_digit()
            invariant
                self.wf(),
                self.text() == old(self).text(),
                past_digits(self.text(), self.at()) == past_digits(
                    old(self).text(),
                    old(self).at(),
                ),
            decreases self.text().len() - self.at(),
        {
            assert(self.input@.len() == self.input.len());
            self.position = self.position + 1;
        }
    }

    pub fn consume_required_digits(&mut self) -> (r: Result<(), String>)
        requires
            old(self).wf(),
        ensures
            final(self).wf(),
            final(self).text() == old(self).text(),
            match r {
                Ok(()) => past_required_digits(old(self).text(), old(self).at()) == Ok::<
                    int,
                    Seq<char>,
                >(final(self).at()) && final(self).at() > old(self).at(),
                Err(e) => past_required_digits(old(self).text(), old(self).at()) == Err::<
                    int,
                    Seq<char>,
                >(e@) && final(self).at() == old(self).at(),
            },
    {
        if !self.at_digit() {
            return Err("invalid number in config file".to_owned());
        }
        proof {
            lemma_past_digits(self.text(), self.at());
        }
        self.consume_digits();
        Ok(())
    }

    pub fn expect_char(&mut self, expected: char) -> (r: Result<(), String>)
        requires
            old(self).wf(),
        ensures
            final(self).wf(),
            final(self).text() == old(self).text(),
            match r {
                Ok(()) => past_char(old(self).text(), old(self).at(), expected) == Ok::<
                    int,
                    Seq<char>,
                >(final(self).at()) && final(self).at() == old(self).at() + 1,
                Err(e) => past_char(old(self).text(), old(self).at(), expected) == Err::<
                    int,
                    Seq<char>,
                >(e@) && final(self).at() == (if old(self).at() < old(self).text().len() {
                    old(self).at() + 1
                } else {
                    old(self).at()
                }),
            },
    {
        match self.next_char() {
            Some(actual) => {
                if actual == expected {
                    Ok(())
                } else {
                    Err(
                        cat5(
                            "expected `",
                            char_text(expected).as_str(),
                            "` but found `",
                            char_text(actual).as_str(),
                            "`",
                        ),
                    )
                }
            },
            None => Err(
                cat3("expected `", char_text(expected).as_str(), "` but found end of file"),
            ),
        }
    }

    /// Takes `count` characters.
    pub fn take_chars(&mut self, count: usize) -> (r: Result<Vec<char>, String>)
        requires
            old(self).wf(),
        ensures
            final(self).wf(),
            final(self).text() == old(self).text(),
            match r {
                Ok(chars) => old(self).at() + count <= old(self).text().len() && chars@ == old(
                    self,
                ).text().subrange(old(self).at(), old(self).at() + count) && final(self).at()
                    == old(self).at() + count,
                Err(e) => old(self).at() + count > old(self).text().len() && e@
                    == "unexpected end of config file"@ && final(self).at() == old(
                    self,
                ).text().len(),
            },
    {
        let mut chars: Vec<char> = Vec::new();
        let mut i: usize = 0;
        while i < count
            invariant
                i <= count,
                self.wf(),
                self.text() == old(self).text(),
                self.at() == old(self).at() + i,
                chars@ == old(self).text().subrange(old(self).at(), old(self).at() + i),
            decreases count - i,
        {
            match self.next_char() {
                Some(c) => {
                    chars.push(c);
                },
                None => {
                    return Err("unexpected end of config file".to_owned());
                },
            }
            i += 1;
            assert(chars@ =~= old(self).text().subrange(old(self).at(), old(self).at() + i));
        }
        Ok(chars)
    }

    /// Reads an escape sequence from behind its backslash.
    pub fn parse_escape_sequence(&mut self) -> (r: Result<char, String>)
        requires
            old(self).wf(),
        ensures
            final(self).wf(),
            final(self).text() == old(self).text(),
            match r {
                Ok(c) => escape_at(old(self).text(), old(self).at()) == Ok::<
                    (char, int),
                    Seq<char>,
                >((c, final(self).at())) && final(self).at() > old(self).at(),
                Err(e) => escape_at(old(self).text(), old(self).at()) == Err::<
                    (char, int),
                    Seq<char>,
                >(e@),
            },
    {
        let c = match self.next_char() {
            Some(c) => c,
            None => {
                return Err("incomplete escape sequence in config file".to_owned());
            },
        };
        if c == '"' {
            Ok('"')
        } else if c == '\\' {
            Ok('\\')
        } else if c == '/' {
            Ok('/')
        } else if c == 'b' {
            Ok('\u{0008}')
        } else if c == 'f' {
            Ok('\u{000C}')
        } else if c == 'n' {
            Ok('\n')
        } else if c == 'r' {
            Ok('\r')
        } else if c == 't' {
            Ok('\t')
        } else if c == 'u' {
            let digits = self.take_chars(4)?;
            match parse_hex_number(&digits) {
                None => Err("invalid unicode escape in config file".to_owned()),
                Some(code) => match char::from_u32(code) {
                    Some(c) => Ok(c),
                    None => Err("invalid unicode scalar in config file".to_owned()),
                },
            }
        } else {
            Err(cat2("unsupported escape sequence: \\", char_text(c).as_str()))
        }
    }

    pub fn parse_string(&mut self) -> (r: Result<String, String>)
        requires
            old(self).wf(),
        ensures
            final(self).wf(),
            final(self).text() == old(self).text(),
            match r {
                Ok(text) => string_at(old(self).text(), old(self).at()) == Ok::<
                    (Seq<char>, int),
                    Seq<char>,
                >((text@, final(self).at())) && final(self).at() > old(self).at(),
                Err(e) => string_at(old(self).text(), old(self).at()) == Err::<
                    (Seq<char>, int),
                    Seq<char>,
                >(e@),
            },
    {
        self.expect_char('"')?;
        let mut value = String::new();
        loop
            invariant
                self.wf(),
                self.text() == old(self).text(),
                self.at() > old(self).at(),
                string_at(old(self).text(), old(self).at()) == string_rest(
                    self.text(),
                    self.at(),
                    value@,
                ),
            decreases self.text().len() - self.at(),
        {
            let c = match self.next_char() {
                Some(c) => c,
                None => {
                    return Err("unterminated string in config file".to_owned());
                },
            };
            if c == '"' {
                return Ok(value);
            }
            if c == '\\' {
                let escaped = self.parse_escape_sequence()?;
                value.push(escaped);
            } else {
                value.push(c);
            }
        }
    }

    pub fn parse_number(&mut self) -> (r: Result<String, String>)
        requires
            old(self).wf(),
        ensures
            final(self).wf(),
            final(self).text() == old(self).text(),
            match r {
                Ok(text) => number_at(old(self).text(), old(self).at()) == Ok::<
                    (Seq<char>, int),
                    Seq<char>,
                >((text@, final(self).at())) && final(self).at() > old(self).at(),
                Err(e) => number_at(old(self).text(), old(self).at()) == Err::<
                    (Seq<char>, int),
                    Seq<char>,
                >(e@),
            },
    {
        let start: usize = self.position;
        if self.at_char('-') {
            let _ = self.next_char();
        }
        if self.at_char('0') {
            let _ = self.next_char();
        } else {
            self.consume_required_digits()?;
        }
        if self.at_char('.') {
            let _ = self.next_char();
            self.consume_required_digits()?;
        }
        if self.at_char('e') || self.at_char('E') {
            let _ = self.next_char();
            if self.at_char('+') || self.at_char('-') {
                let _ = self.next_char();
            }
            self.consume_required_digits()?;
        }
        let mut number = String::new();
        let mut i: usize = start;
        while i < self.position
            invariant
                self.wf(),
                start <= i <= self.position,
                number@ == self.text().subrange(start as int, i as int),
            decreases self.position - i,
        {
            number.push(self.input[i]);
            i += 1;
            assert(number@ =~= self.text().subrange(start as int, i as int));
        }
        Ok(number)
    }

    pub fn parse_keyword(&mut self, keyword: &str, value: JsonValue) -> (r: Result<
        JsonValue,
        String,
    >)
        requires
            old(self).wf(),
        ensures
            final(self).wf(),
            final(self).text() == old(self).text(),
            match r {
                Ok(v) => keyword_at(
                    old(self).text(),
                    old(self).at(),
                    keyword@,
                    value.deep_view(),
                ) == Ok::<(JsonModel, int), Seq<char>>((v.deep_view(), final(self).at()))
                    && final(self).at() == old(self).at() + keyword@.len(),
                Err(e) => keyword_at(
                    old(self).text(),
                    old(self).at(),
                    keyword@,
                    value.deep_view(),
                ) == Err::<(JsonModel, int), Seq<char>>(e@),
            },
    {
        let word = chars_of(keyword);
        let start: usize = self.position;
        let mut i: usize = 0;
        while i < word.len()
            invariant
                i <= word.len(),
                word@ == keyword@,
                self.wf(),
                self.text() == old(self).text(),
                start == old(self).at(),
                self.at() == start,
                start + i <= self.text().len(),
                forall|k: int| 0 <= k < i ==> self.text()[start + k] == #[trigger] word@[k],
            decreases word.len() - i,
        {
            if i >= self.input.len() - start || self.input[start + i] != word[i] {
                proof {
                    if start + word@.len() <= self.text().len() {
                        assert(self.text().subrange(start as int, start + word@.len())[i as int]
                            != word@[i as int]);
                    }
                }
                return Err(cat3("invalid token in config file near `", keyword, "`"));
            }
            i += 1;
        }
        assert(self.text().subrange(start as int, start + word@.len()) =~= keyword@);
        assert(self.input@.len() == self.input.len());
        self.position = start + word.len();
        Ok(value)
    }

    pub fn parse_value(&mut self) -> (r: Result<JsonValue, String>)
        requires
            old(self).wf(),
        ensures
            final(self).wf(),
            final(self).text() == old(self).text(),
            match r {
                Ok(v) => value_at(old(self).text(), old(self).at()) == Ok::<
                    (JsonModel, int),
                    Seq<char>,
                >((v.deep_view(), final(self).at())) && final(self).at() > old(self).at(),
                Err(e) => value_at(old(self).text(), old(self).at()) == Err::<
                    (JsonModel, int),
                    Seq<char>,
                >(e@),
            },
        decreases old(self).text().len() - old(self).at(), 1int,
    {
        let c = match self.peek_char() {
            Some(c) => c,
            None => {
                return Err("unexpected end of config file".to_owned());
            },
        };
        if c == '{' {
            self.parse_object()
        } else if c == '[' {
            self.parse_array()
        } else if c == '"' {
            let text = self.parse_string()?;
            Ok(JsonValue::String(text))
        } else if c == 't' {
            proof {
                reveal_strlit("true");
            }
            self.parse_keyword("true", JsonValue::Bool(true))
        } else if c == 'f' {
            proof {
                reveal_strlit("false");
            }
            self.parse_keyword("false", JsonValue::Bool(false))
        } else if c == 'n' {
            proof {
                reveal_strlit("null");
            }
            self.parse_keyword("null", JsonValue::Null)
        } else if c == '-' || ('0' <= c && c <= '9') {
            let text = self.parse_number()?;
            Ok(JsonValue::Number(text))
        } else {
            Err(cat3("unexpected character in config file: `", char_text(c).as_str(), "`"))
        }
    }

    pub fn parse_object(&mut self) -> (r: Result<JsonValue, String>)
        requires
            old(self).wf(),
            char_at(old(self).text(), old(self).at(), '{'),
        ensures
            final(self).wf(),
            final(self).text() == old(self).text(),
            match r {
                Ok(v) => value_at(old(self).text(), old(self).at()) == Ok::<
                    (JsonModel, int),
                    Seq<char>,
                >((v.deep_view(), final(self).at())) && final(self).at() > old(self).at(),
                Err(e) => value_at(old(self).text(), old(self).at()) == Err::<
                    (JsonModel, int),
                    Seq<char>,
                >(e@),
            },
        decreases old(self).text().len() - old(self).at(), 0int,
    {
        let ghost s = self.text();
        let ghost start = self.at();
        self.expect_char('{')?;
        proof {
            lemma_past_white(s, self.at());
        }
        self.consume_whitespace();
        let mut members: Vec<(String, JsonValue)> = Vec::new();
        if self.at_char('}') {
            let _ = self.next_char();
            assert(member_models(members@) =~= Seq::<(Seq<char>, JsonModel)>::empty());
            return Ok(JsonValue::Object(members));
        }
        assert(member_models(members@) =~= Seq::<(Seq<char>, JsonModel)>::empty());
        loop
            invariant
                self.wf(),
                self.text() == s,
                s == old(self).text(),
                start == old(self).at(),
                self.at() > start,
                value_at(s, start) == members_from(s, self.at(), member_models(members@)),
            decreases s.len() - self.at(),
        {
            let ghost p = self.at();
            let ghost read = member_models(members@);
            proof {
                reveal_with_fuel(members_from, 2);
                reveal_with_fuel(member_at, 2);
                lemma_past_white(s, p);
            }
            self.consume_whitespace();
            let key = self.parse_string()?;
            proof {
                lemma_past_white(s, self.at());
            }
            self.consume_whitespace();
            self.expect_char(':')?;
            proof {
                lemma_past_white(s, self.at());
            }
            self.consume_whitespace();
            let value = self.parse_value()?;
            let ghost kv = (key@, value.deep_view());
            proof {
                lemma_member_models(members@);
            }
            insert_entry(&mut members, key, value);
            proof {
                lemma_member_models(members@);
                assert(member_models(members@) == inserted(read, kv.0, kv.1));
                lemma_past_white(s, self.at());
            }
            self.consume_whitespace();
            if self.at_char(',') {
                let _ = self.next_char();
            } else if self.at_char('}') {
                let _ = self.next_char();
                return Ok(JsonValue::Object(members));
            } else {
                return Err("expected `,` or `}` in config object".to_owned());
            }
        }
    }

    pub fn parse_array(&mut self) -> (r: Result<JsonValue, String>)
        requires
            old(self).wf(),
            char_at(old(self).text(), old(self).at(), '['),
        ensures
            final(self).wf(),
            final(self).text() == old(self).text(),
            match r {
                Ok(v) => value_at(old(self).text(), old(self).at()) == Ok::<
                    (JsonModel, int),
                    Seq<char>,
                >((v.deep_view(), final(self).at())) && final(self).at() > old(self).at(),
                Err(e) => value_at(old(self).text(), old(self).at()) == Err::<
                    (JsonModel, int),
                    Seq<char>,
                >(e@),
            },
        decreases old(self).text().len() - old(self).at(), 0int,
    {
        let ghost s = self.text();
        let ghost start = self.at();
        self.expect_char('[')?;
        proof {
            lemma_past_white(s, self.at());
        }
        self.consume_whitespace();
        let mut values: Vec<JsonValue> = Vec::new();
        if self.at_char(']') {
            let _ = self.next_char();
            assert(json_models(values@) =~= Seq::<JsonModel>::empty());
            return Ok(JsonValue::Array(values));
        }
        assert(json_models(values@) =~= Seq::<JsonModel>::empty());
        loop
            invariant
                self.wf(),
                self.text() == s,
                s == old(self).text(),
                start == old(self).at(),
                self.at() > start,
                value_at(s, start) == items_from(s, self.at(), json_models(values@)),
            decreases s.len() - self.at(),
        {
            let ghost p = self.at();
            let ghost before = values@;
            proof {
                lemma_past_white(s, p);
            }
            self.consume_whitespace();
            let value = self.parse_value()?;
            values.push(value);
            proof {
                assert(values@.drop_last() == before);
                assert(json_models(values@) == json_models(before).push(
                    json_model(values@[values@.len() - 1]),
                ));
                lemma_past_white(s, self.at());
            }
            self.consume_whitespace();
            if self.at_char(',') {
                let _ = self.next_char();
            } else if self.at_char(']') {
                let _ = self.next_char();
                return Ok(JsonValue::Array(values));
            } else {
                return Err("expected `,` or `]` in config array".to_owned());
            }
        }
    }
}

} // verus!

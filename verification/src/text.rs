//! Text as sequences of characters.
//!
//! Every text in this library is modelled by the sequence of its characters. The spec
//! functions of this module say what the usual text operations give; the executable
//! functions below compute them on `&str`.
use vstd::prelude::*;
use vstd::string::*;

verus! {

/// `String::push` appends the given character at the end of the string.
pub assume_specification[ std::string::String::push ](s: &mut std::string::String, c: char)
    ensures
        final(s)@ == old(s)@.push(c),
;

/// The outcome of an operation that fails with a message: the value by its model, the
/// message by its characters.
pub open spec fn viewed<T: DeepView>(r: Result<T, String>) -> Result<T::V, Seq<char>> {
    match r {
        Ok(v) => Ok(v.deep_view()),
        Err(e) => Err(e@),
    }
}

/// The characters of each text of a list.
pub open spec fn texts(v: Seq<String>) -> Seq<Seq<char>> {
    v.map_values(|s: String| s@)
}

// ---------------------------------------------------------------------------
// Models
// ---------------------------------------------------------------------------

/// The characters with the Unicode property White_Space.
pub open spec fn is_white(c: char) -> bool {
    let n = c as int;
    ||| 9 <= n <= 13
    ||| n == 0x20
    ||| n == 0x85
    ||| n == 0xA0
    ||| n == 0x1680
    ||| 0x2000 <= n <= 0x200A
    ||| n == 0x2028
    ||| n == 0x2029
    ||| n == 0x202F
    ||| n == 0x205F
    ||| n == 0x3000
}

/// `s` without the white space it starts with.
pub open spec fn trim_start(s: Seq<char>) -> Seq<char>
    decreases s.len(),
{
    if s.len() > 0 && is_white(s[0]) {
        trim_start(s.skip(1))
    } else {
        s
    }
}

/// `s` without the white space it ends with.
pub open spec fn trim_end(s: Seq<char>) -> Seq<char>
    decreases s.len(),
{
    if s.len() > 0 && is_white(s.last()) {
        trim_end(s.drop_last())
    } else {
        s
    }
}

/// `s` without the white space at both ends.
pub open spec fn trimmed(s: Seq<char>) -> Seq<char> {
    trim_end(trim_start(s))
}

/// The position of the first `c` in `s`, or the length of `s` where there is none.
pub open spec fn first_at(s: Seq<char>, c: char) -> int
    decreases s.len(),
{
    if s.len() == 0 || s[0] == c {
        0
    } else {
        1 + first_at(s.skip(1), c)
    }
}

/// The position of the last `c` in `s`, or -1 where there is none.
pub open spec fn last_at(s: Seq<char>, c: char) -> int
    decreases s.len(),
{
    if s.len() == 0 {
        -1
    } else if s.last() == c {
        s.len() - 1
    } else {
        last_at(s.drop_last(), c)
    }
}

/// What stands before and after the first `c`.
pub open spec fn cut_at_first(s: Seq<char>, c: char) -> Option<(Seq<char>, Seq<char>)> {
    let k = first_at(s, c);
    if k < s.len() {
        Some((s.take(k), s.skip(k + 1)))
    } else {
        None
    }
}

/// What stands before and after the last `c`.
pub open spec fn cut_at_last(s: Seq<char>, c: char) -> Option<(Seq<char>, Seq<char>)> {
    let k = last_at(s, c);
    if k >= 0 {
        Some((s.take(k), s.skip(k + 1)))
    } else {
        None
    }
}

/// The pieces of `s` between the occurrences of `c`: one more than there are occurrences.
pub open spec fn pieces(s: Seq<char>, c: char) -> Seq<Seq<char>>
    decreases s.len(),
{
    let k = first_at(s, c);
    if 0 <= k < s.len() {
        seq![s.take(k)] + pieces(s.skip(k + 1), c)
    } else {
        seq![s]
    }
}

/// `s` starts with `p`.
pub open spec fn has_prefix(s: Seq<char>, p: Seq<char>) -> bool {
    p.len() <= s.len() && s.take(p.len() as int) == p
}

/// `s` ends with `p`.
pub open spec fn has_suffix(s: Seq<char>, p: Seq<char>) -> bool {
    p.len() <= s.len() && s.skip(s.len() - p.len()) == p
}

/// `s` starts with the character `c`.
pub open spec fn begins(s: Seq<char>, c: char) -> bool {
    s.len() > 0 && s[0] == c
}

pub open spec fn lower_char(c: char) -> char {
    if 'A' <= c <= 'Z' {
        ((c as u8) + 32) as char
    } else {
        c
    }
}

pub open spec fn upper_char(c: char) -> char {
    if 'a' <= c <= 'z' {
        ((c as u8) - 32) as char
    } else {
        c
    }
}

/// `s` with the ASCII letters in lower case.
pub open spec fn lower(s: Seq<char>) -> Seq<char> {
    s.map_values(|c: char| lower_char(c))
}

/// `s` with the ASCII letters in upper case.
pub open spec fn upper(s: Seq<char>) -> Seq<char> {
    s.map_values(|c: char| upper_char(c))
}

pub open spec fn is_digit(c: char) -> bool {
    '0' <= c <= '9'
}

pub open spec fn all_digits(s: Seq<char>) -> bool {
    forall|i: int| 0 <= i < s.len() ==> is_digit(#[trigger] s[i])
}

/// The number that a sequence of decimal digits denotes.
pub open spec fn digits_value(s: Seq<char>) -> nat
    decreases s.len(),
{
    if s.len() == 0 {
        0
    } else {
        digits_value(s.drop_last()) * 10 + (s.last() as int - '0' as int) as nat
    }
}

/// The number that `s` denotes: one digit or more, after an optional `+`.
pub open spec fn number(s: Seq<char>) -> Option<nat> {
    let d = if begins(s, '+') {
        s.skip(1)
    } else {
        s
    };
    if d.len() > 0 && all_digits(d) {
        Some(digits_value(d))
    } else {
        None
    }
}

/// The number that `s` denotes, where it is at most `max`.
pub open spec fn number_up_to(s: Seq<char>, max: nat) -> Option<nat> {
    match number(s) {
        Some(n) => if n <= max {
            Some(n)
        } else {
            None
        },
        None => None,
    }
}

pub open spec fn digit_char(n: nat) -> char {
    ('0' as u8 + n) as u8 as char
}

/// `n` in decimal digits.
pub open spec fn decimal(n: nat) -> Seq<char>
    decreases n,
{
    if n < 10 {
        seq![digit_char(n)]
    } else {
        decimal(n / 10).push(digit_char(n % 10))
    }
}

/// The part stands somewhere in the text.
#[verifier::opaque]
pub open spec fn holds(text: Seq<char>, part: Seq<char>) -> bool {
    exists|i: int|
        0 <= i && i + part.len() <= text.len() && (#[trigger] text.skip(i)).take(part.len() as int)
            == part
}

/// A part that other texts stand around is still there.
pub proof fn lemma_holds(before: Seq<char>, part: Seq<char>, after: Seq<char>)
    ensures
        holds(before + part + after, part),
{
    reveal(holds);
    let text = before + part + after;
    let rest = text.skip(before.len() as int);
    assert(rest.take(part.len() as int) =~= part);
}

/// A part of one of two texts is a part of them together.
pub broadcast proof fn lemma_holds_either(a: Seq<char>, b: Seq<char>, part: Seq<char>)
    requires
        holds(a, part) || holds(b, part),
    ensures
        #[trigger] holds(a + b, part),
{
    reveal(holds);
    let all = a + b;
    if holds(a, part) {
        let i = choose|i: int|
            0 <= i && i + part.len() <= a.len() && (#[trigger] a.skip(i)).take(part.len() as int)
                == part;
        assert(all.skip(i).take(part.len() as int) =~= a.skip(i).take(part.len() as int));
    } else {
        let i = choose|i: int|
            0 <= i && i + part.len() <= b.len() && (#[trigger] b.skip(i)).take(part.len() as int)
                == part;
        assert(all.skip(a.len() + i).take(part.len() as int) =~= b.skip(i).take(
            part.len() as int,
        ));
    }
}

/// A text is a part of itself.
pub broadcast proof fn lemma_holds_itself(text: Seq<char>, part: Seq<char>)
    requires
        text == part,
    ensures
        #[trigger] holds(text, part),
{
    reveal(holds);
    assert(text.skip(0).take(part.len() as int) =~= part);
}

/// Two neighbours are a part of the text that ends with them.
pub broadcast proof fn lemma_holds_neighbours(a: Seq<char>, b: Seq<char>, c: Seq<char>)
    ensures
        #[trigger] holds(a + b + c, b + c),
{
    assert(a + b + c =~= a + (b + c) + Seq::<char>::empty());
    lemma_holds(a, b + c, Seq::empty());
}

pub broadcast group group_holds {
    lemma_holds_either,
    lemma_holds_itself,
    lemma_holds_neighbours,
}

/// The parts with `sep` between each two of them.
pub open spec fn joined(parts: Seq<Seq<char>>, sep: Seq<char>) -> Seq<char>
    decreases parts.len(),
{
    if parts.len() == 0 {
        seq![]
    } else if parts.len() == 1 {
        parts[0]
    } else {
        joined(parts.drop_last(), sep) + sep + parts.last()
    }
}

/// A hexadecimal digit, with letters in lower case.
pub open spec fn hex_char(n: nat) -> char {
    if n < 10 {
        ('0' as u8 + n) as u8 as char
    } else {
        ('a' as u8 + (n - 10)) as u8 as char
    }
}

/// A byte as two hexadecimal digits in upper case.
pub open spec fn hex_byte(b: u8) -> Seq<char> {
    seq![upper_char(hex_char((b / 16) as nat)), upper_char(hex_char((b % 16) as nat))]
}

/// The `width` lowest hexadecimal digits of a number, in lower case.
pub open spec fn hex_fixed(n: nat, width: nat) -> Seq<char>
    decreases width,
{
    if width == 0 {
        seq![]
    } else {
        hex_fixed(n / 16, (width - 1) as nat).push(hex_char(n % 16))
    }
}

/// A byte in as few upper-case hexadecimal digits as it takes.
pub open spec fn hex_short(b: u8) -> Seq<char> {
    if b < 16 {
        seq![upper_char(hex_char(b as nat))]
    } else {
        hex_byte(b)
    }
}

/// Bytes as upper-case hexadecimal pairs with spaces between them.
pub open spec fn hex_bytes(b: Seq<u8>) -> Seq<char> {
    joined(b.map_values(|x: u8| hex_byte(x)), " "@)
}

// ---------------------------------------------------------------------------
// Facts
// ---------------------------------------------------------------------------

/// `trim_start` drops exactly the longest run of white space at the start.
pub proof fn lemma_trim_start(s: Seq<char>, k: int)
    requires
        0 <= k <= s.len(),
        forall|i: int| 0 <= i < k ==> is_white(#[trigger] s[i]),
        k < s.len() ==> !is_white(s[k]),
    ensures
        trim_start(s) == s.skip(k),
    decreases s.len(),
{
    if k == 0 {
        assert(s.skip(0) == s);
    } else {
        assert(is_white(s[0]));
        let t = s.skip(1);
        assert forall|i: int| 0 <= i < k - 1 implies is_white(#[trigger] t[i]) by {
            assert(t[i] == s[i + 1]);
        }
        lemma_trim_start(t, k - 1);
        assert(t.skip(k - 1) == s.skip(k));
    }
}

/// `trim_end` drops exactly the longest run of white space at the end.
pub proof fn lemma_trim_end(s: Seq<char>, k: int)
    requires
        0 <= k <= s.len(),
        forall|i: int| k <= i < s.len() ==> is_white(#[trigger] s[i]),
        k > 0 ==> !is_white(s[k - 1]),
    ensures
        trim_end(s) == s.take(k),
    decreases s.len(),
{
    if k == s.len() {
        assert(s.take(k) == s);
    } else {
        assert(is_white(s[s.len() - 1]));
        let t = s.drop_last();
        lemma_trim_end(t, k);
        assert(t.take(k) == s.take(k));
    }
}

/// The first occurrence, by what stands before it.
pub proof fn lemma_first_at(s: Seq<char>, c: char, k: int)
    requires
        0 <= k <= s.len(),
        forall|i: int| 0 <= i < k ==> #[trigger] s[i] != c,
        k < s.len() ==> s[k] == c,
    ensures
        first_at(s, c) == k,
    decreases s.len(),
{
    if k > 0 {
        assert(s[0] != c);
        let t = s.skip(1);
        assert forall|i: int| 0 <= i < k - 1 implies #[trigger] t[i] != c by {
            assert(t[i] == s[i + 1]);
        }
        lemma_first_at(t, c, k - 1);
    }
}

/// `first_at` is a position of `s` or its length; no `c` stands before it.
pub proof fn lemma_first_at_range(s: Seq<char>, c: char)
    ensures
        0 <= first_at(s, c) <= s.len(),
        first_at(s, c) < s.len() ==> s[first_at(s, c)] == c,
        forall|i: int| 0 <= i < first_at(s, c) ==> #[trigger] s[i] != c,
    decreases s.len(),
{
    if s.len() > 0 && s[0] != c {
        lemma_first_at_range(s.skip(1), c);
        let t = s.skip(1);
        assert forall|i: int| 0 <= i < first_at(s, c) implies #[trigger] s[i] != c by {
            if i > 0 {
                assert(t[i - 1] == s[i]);
            }
        }
    }
}

/// The last occurrence, by what stands after it.
pub proof fn lemma_last_at(s: Seq<char>, c: char, k: int)
    requires
        -1 <= k < s.len(),
        forall|i: int| k < i < s.len() ==> #[trigger] s[i] != c,
        k >= 0 ==> s[k] == c,
    ensures
        last_at(s, c) == k,
    decreases s.len(),
{
    if s.len() > 0 && k < s.len() - 1 {
        assert(s[s.len() - 1] != c);
        lemma_last_at(s.drop_last(), c, k);
    }
}

/// The first digits of a number denote at most the number.
pub proof fn lemma_digits_value_prefix(s: Seq<char>, k: int)
    requires
        0 <= k <= s.len(),
    ensures
        digits_value(s.take(k)) <= digits_value(s),
    decreases s.len(),
{
    if k == s.len() {
        assert(s.take(k) == s);
    } else {
        lemma_digits_value_prefix(s.drop_last(), k);
        assert(s.drop_last().take(k) == s.take(k));
    }
}

/// The decimal digits of `n` denote `n`, and there is one or more of them.
pub proof fn lemma_decimal(n: nat)
    ensures
        decimal(n).len() > 0,
        all_digits(decimal(n)),
        digits_value(decimal(n)) == n,
    decreases n,
{
    let d = decimal(n);
    if n < 10 {
        assert(d.drop_last() == Seq::<char>::empty());
        assert(digits_value(Seq::<char>::empty()) == 0);
        assert(d.last() == digit_char(n));
    } else {
        lemma_decimal(n / 10);
        let h = decimal(n / 10);
        assert(d.drop_last() == h);
        assert(d.last() == digit_char(n % 10));
        assert forall|i: int| 0 <= i < d.len() implies is_digit(#[trigger] d[i]) by {
            if i < h.len() {
                assert(d[i] == h[i]);
            }
        }
    }
}

/// Reading a number back from its decimal digits gives the number.
pub proof fn lemma_number_of_decimal(n: nat)
    ensures
        number(decimal(n)) == Some(n),
{
    lemma_decimal(n);
    assert(is_digit(decimal(n)[0]));
}

/// Joining the pieces of a text with the character that was cut at gives the text back.
pub proof fn lemma_pieces_joined(s: Seq<char>, c: char)
    ensures
        joined(pieces(s, c), seq![c]) == s,
        pieces(s, c).len() > 0,
    decreases s.len(),
{
    let k = first_at(s, c);
    lemma_first_at_range(s, c);
    if k < s.len() {
        let rest = s.skip(k + 1);
        lemma_pieces_joined(rest, c);
        lemma_joined_cons(s.take(k), pieces(rest, c), seq![c]);
        assert(s == s.take(k) + seq![c] + rest);
    }
}

/// A first part before other parts.
pub proof fn lemma_joined_cons(first: Seq<char>, rest: Seq<Seq<char>>, sep: Seq<char>)
    requires
        rest.len() > 0,
    ensures
        joined(seq![first] + rest, sep) == first + sep + joined(rest, sep),
    decreases rest.len(),
{
    let all = seq![first] + rest;
    assert(all.last() == rest.last());
    if rest.len() == 1 {
        assert(all.drop_last() == seq![first]);
        assert(joined(seq![first], sep) == first);
    } else {
        assert(all.drop_last() == seq![first] + rest.drop_last());
        lemma_joined_cons(first, rest.drop_last(), sep);
        assert(first + sep + joined(rest.drop_last(), sep) + sep + rest.last() == first + sep + (
        joined(rest.drop_last(), sep) + sep + rest.last()));
    }
}

// ---------------------------------------------------------------------------
// Executable functions
// ---------------------------------------------------------------------------

/// The characters of a text.
pub fn chars_of(s: &str) -> (out: Vec<char>)
    ensures
        out@ == s@,
{
    let mut out: Vec<char> = Vec::new();
    for c in it: s.chars()
        invariant
            it.seq() == s@,
            out@ == s@.take(it.index() as int),
    {
        out.push(c);
    }
    out
}

/// The text that is made of the given characters.
pub fn string_of(chars: &Vec<char>) -> (s: String)
    ensures
        s@ == chars@,
{
    let mut s = String::new();
    let mut i: usize = 0;
    while i < chars.len()
        invariant
            i <= chars.len(),
            s@ == chars@.take(i as int),
        decreases chars.len() - i,
    {
        s.push(chars[i]);
        i += 1;
    }
    assert(chars@.take(i as int) == chars@);
    s
}

/// Whether two texts hold the same characters.
pub fn same(a: &str, b: &str) -> (r: bool)
    ensures
        r == (a@ == b@),
{
    a.to_owned() == b.to_owned()
}

pub fn cat2(a: &str, b: &str) -> (r: String)
    ensures
        r@ == a@ + b@,
{
    let mut s = a.to_owned();
    s.append(b);
    s
}

pub fn cat3(a: &str, b: &str, c: &str) -> (r: String)
    ensures
        r@ == a@ + b@ + c@,
{
    let mut s = cat2(a, b);
    s.append(c);
    s
}

pub fn cat4(a: &str, b: &str, c: &str, d: &str) -> (r: String)
    ensures
        r@ == a@ + b@ + c@ + d@,
{
    let mut s = cat3(a, b, c);
    s.append(d);
    s
}

pub fn cat5(a: &str, b: &str, c: &str, d: &str, e: &str) -> (r: String)
    ensures
        r@ == a@ + b@ + c@ + d@ + e@,
{
    let mut s = cat4(a, b, c, d);
    s.append(e);
    s
}

pub fn is_white_char(c: char) -> (r: bool)
    ensures
        r == is_white(c),
{
    let n: u32 = c as u32;
    (9 <= n && n <= 13) || n == 0x20 || n == 0x85 || n == 0xA0 || n == 0x1680 || (0x2000 <= n && n
        <= 0x200A) || n == 0x2028 || n == 0x2029 || n == 0x202F || n == 0x205F || n == 0x3000
}

/// The text without the white space at both ends.
pub fn trim(s: &str) -> (r: &str)
    ensures
        r@ == trimmed(s@),
{
    let chars = chars_of(s);
    let n: usize = chars.len();
    let mut i: usize = 0;
    while i < n && is_white_char(chars[i])
        invariant
            i <= n,
            n == chars.len(),
            forall|k: int| 0 <= k < i ==> is_white(#[trigger] chars@[k]),
        decreases n - i,
    {
        i += 1;
    }
    let mut j: usize = n;
    proof {
        lemma_trim_start(s@, i as int);
    }
    while j > i && is_white_char(chars[j - 1])
        invariant
            i <= j <= n,
            n == chars.len(),
            forall|k: int| j <= k < n ==> is_white(#[trigger] chars@[k]),
        decreases j,
    {
        j -= 1;
    }
    proof {
        let t = s@.skip(i as int);
        assert forall|k: int| j - i <= k < t.len() implies is_white(#[trigger] t[k]) by {
            assert(t[k] == chars@[k + i]);
        }
        lemma_trim_end(t, (j - i) as int);
        assert(t.take((j - i) as int) == s@.subrange(i as int, j as int));
    }
    s.substring_char(i, j)
}

/// Whether nothing but white space stands in the text.
pub fn is_blank(s: &str) -> (r: bool)
    ensures
        r == (trimmed(s@).len() == 0),
{
    trim(s).is_empty()
}

pub fn contains_char(s: &str, c: char) -> (r: bool)
    ensures
        r == s@.contains(c),
{
    let chars = chars_of(s);
    let mut i: usize = 0;
    while i < chars.len()
        invariant
            i <= chars.len(),
            chars@ == s@,
            forall|k: int| 0 <= k < i ==> #[trigger] chars@[k] != c,
        decreases chars.len() - i,
    {
        if chars[i] == c {
            assert(s@[i as int] == c);
            return true;
        }
        i += 1;
    }
    false
}

pub fn begins_with(s: &str, c: char) -> (r: bool)
    ensures
        r == begins(s@, c),
{
    let chars = chars_of(s);
    chars.len() > 0 && chars[0] == c
}

/// What stands before and after the first `c`.
pub fn split_once(s: &str, c: char) -> (r: Option<(&str, &str)>)
    ensures
        r.deep_view() == cut_at_first(s@, c),
{
    let chars = chars_of(s);
    let n: usize = chars.len();
    let mut i: usize = 0;
    while i < n && chars[i] != c
        invariant
            i <= n,
            n == chars.len(),
            forall|k: int| 0 <= k < i ==> #[trigger] chars@[k] != c,
        decreases n - i,
    {
        i += 1;
    }
    proof {
        lemma_first_at(s@, c, i as int);
    }
    if i < n {
        assert(s@.subrange(0, i as int) == s@.take(i as int));
        assert(s@.subrange(i as int + 1, n as int) == s@.skip(i as int + 1));
        Some((s.substring_char(0, i), s.substring_char(i + 1, n)))
    } else {
        None
    }
}

/// What stands before and after the last `c`.
pub fn rsplit_once(s: &str, c: char) -> (r: Option<(&str, &str)>)
    ensures
        r.deep_view() == cut_at_last(s@, c),
{
    let chars = chars_of(s);
    let n: usize = chars.len();
    let mut i: usize = n;
    while i > 0 && chars[i - 1] != c
        invariant
            i <= n,
            n == chars.len(),
            forall|k: int| i <= k < n ==> #[trigger] chars@[k] != c,
        decreases i,
    {
        i -= 1;
    }
    proof {
        lemma_last_at(s@, c, i as int - 1);
    }
    if i > 0 {
        assert(s@.subrange(0, i as int - 1) == s@.take(i as int - 1));
        assert(s@.subrange(i as int, n as int) == s@.skip(i as int));
        Some((s.substring_char(0, i - 1), s.substring_char(i, n)))
    } else {
        None
    }
}

/// The pieces between the occurrences of `c`.
pub fn split(s: &str, c: char) -> (r: Vec<&str>)
    ensures
        r.deep_view() == pieces(s@, c),
{
    let mut out: Vec<&str> = Vec::new();
    let mut rest: &str = s;
    loop
        invariant
            pieces(s@, c) == out.deep_view() + pieces(rest@, c),
        decreases rest@.len(),
    {
        proof {
            lemma_first_at_range(rest@, c);
        }
        let ghost before = out.deep_view();
        match split_once(rest, c) {
            Some((head, tail)) => {
                out.push(head);
                assert(out.deep_view() == before.push(head@));
                assert(before + (seq![head@] + pieces(tail@, c)) == before.push(head@) + pieces(
                    tail@,
                    c,
                ));
                rest = tail;
            },
            None => {
                out.push(rest);
                assert(out.deep_view() == before + seq![rest@]);
                return out;
            },
        }
    }
}

/// Whether the text starts with `p`.
pub fn starts_with(s: &str, p: &str) -> (r: bool)
    ensures
        r == has_prefix(s@, p@),
{
    let n: usize = p.unicode_len();
    if n > s.unicode_len() {
        return false;
    }
    assert(s@.subrange(0, n as int) == s@.take(n as int));
    same(s.substring_char(0, n), p)
}

/// The text after `p`, where it starts with `p`.
pub fn strip_prefix<'a>(s: &'a str, p: &str) -> (r: Option<&'a str>)
    ensures
        r.deep_view() == (if has_prefix(s@, p@) {
            Some(s@.skip(p@.len() as int))
        } else {
            None
        }),
{
    if starts_with(s, p) {
        let n: usize = p.unicode_len();
        let m: usize = s.unicode_len();
        assert(s@.subrange(n as int, m as int) == s@.skip(n as int));
        Some(s.substring_char(n, m))
    } else {
        None
    }
}

/// The text before `p`, where it ends with `p`.
pub fn strip_suffix<'a>(s: &'a str, p: &str) -> (r: Option<&'a str>)
    ensures
        r.deep_view() == (if has_suffix(s@, p@) {
            Some(s@.take(s@.len() - p@.len()))
        } else {
            None
        }),
{
    let n: usize = p.unicode_len();
    let m: usize = s.unicode_len();
    if n > m {
        return None;
    }
    assert(s@.subrange(m - n, m as int) == s@.skip(m - n));
    assert(s@.subrange(0, m - n) == s@.take(m - n));
    if same(s.substring_char(m - n, m), p) {
        Some(s.substring_char(0, m - n))
    } else {
        None
    }
}

/// The text with the ASCII letters in lower case.
pub fn to_lower(s: &str) -> (r: String)
    ensures
        r@ == lower(s@),
{
    let chars = chars_of(s);
    let mut out = String::new();
    let mut i: usize = 0;
    while i < chars.len()
        invariant
            i <= chars.len(),
            chars@ == s@,
            out@ == lower(s@).take(i as int),
        decreases chars.len() - i,
    {
        let c = chars[i];
        let d = if 'A' <= c && c <= 'Z' {
            ((c as u8) + 32) as char
        } else {
            c
        };
        out.push(d);
        i += 1;
        assert(lower(s@).take(i as int) == lower(s@).take(i - 1).push(lower(s@)[i - 1]));
    }
    assert(lower(s@).take(i as int) == lower(s@));
    out
}

/// The text with the ASCII letters in upper case.
pub fn to_upper(s: &str) -> (r: String)
    ensures
        r@ == upper(s@),
{
    let chars = chars_of(s);
    let mut out = String::new();
    let mut i: usize = 0;
    while i < chars.len()
        invariant
            i <= chars.len(),
            chars@ == s@,
            out@ == upper(s@).take(i as int),
        decreases chars.len() - i,
    {
        let c = chars[i];
        let d = if 'a' <= c && c <= 'z' {
            ((c as u8) - 32) as char
        } else {
            c
        };
        out.push(d);
        i += 1;
        assert(upper(s@).take(i as int) == upper(s@).take(i - 1).push(upper(s@)[i - 1]));
    }
    assert(upper(s@).take(i as int) == upper(s@));
    out
}

/// The number that the digits from `start` on denote, where it is at most `max`.
fn parse_digits(chars: &Vec<char>, start: usize, max: u64) -> (r: Option<u64>)
    requires
        start <= chars.len(),
    ensures
        ({
            let d = chars@.skip(start as int);
            r == (if d.len() > 0 && all_digits(d) && digits_value(d) <= max {
                Some(digits_value(d) as u64)
            } else {
                None
            })
        }),
{
    let n: usize = chars.len();
    let ghost d = chars@.skip(start as int);
    let mut value: u64 = 0;
    let mut over: bool = false;
    let mut i: usize = start;
    assert(d.take(0) == Seq::<char>::empty());
    while i < n
        invariant
            start <= i <= n,
            n == chars.len(),
            d == chars@.skip(start as int),
            forall|k: int| 0 <= k < i - start ==> is_digit(#[trigger] d[k]),
            !over ==> value == digits_value(d.take(i - start)) && value <= max,
            over ==> digits_value(d.take(i - start)) > max,
        decreases n - i,
    {
        let c = chars[i];
        assert(c == d[i - start]);
        if c < '0' || c > '9' {
            assert(!is_digit(d[i - start]));
            return None;
        }
        let digit: u64 = (c as u64) - 48;
        let ghost before = digits_value(d.take(i - start));
        proof {
            let t = d.take(i - start + 1);
            assert(t.drop_last() == d.take(i - start));
            assert(t.last() == c);
            assert(digits_value(t) == before * 10 + digit);
        }
        if !over {
            let wide: u128 = (value as u128) * 10 + (digit as u128);
            if wide > max as u128 {
                over = true;
            } else {
                value = wide as u64;
            }
        }
        i += 1;
    }
    assert(d.take(n - start) == d);
    if over || start == n {
        None
    } else {
        Some(value)
    }
}

/// The number that the text denotes in decimal digits, where it is at most `max`.
pub fn parse_number(s: &str, max: u64) -> (r: Option<u64>)
    ensures
        r == (match number_up_to(s@, max as nat) {
            Some(n) => Some(n as u64),
            None => None,
        }),
{
    let chars = chars_of(s);
    if chars.len() > 0 && chars[0] == '+' {
        parse_digits(&chars, 1, max)
    } else {
        assert(s@.skip(0) == s@);
        parse_digits(&chars, 0, max)
    }
}

/// The number that the text denotes, where a `u32` holds it.
pub fn parse_u32(s: &str) -> (r: Option<u32>)
    ensures
        r == (match number_up_to(s@, u32::MAX as nat) {
            Some(n) => Some(n as u32),
            None => None,
        }),
{
    match parse_number(s, u32::MAX as u64) {
        Some(n) => Some(n as u32),
        None => None,
    }
}

/// `n` in decimal digits.
pub fn decimal_text(n: u64) -> (r: String)
    ensures
        r@ == decimal(n as nat),
    decreases n,
{
    if n < 10 {
        let mut s = String::new();
        s.push((48 + n as u8) as char);
        assert(s@ == seq![digit_char(n as nat)]);
        s
    } else {
        let mut s = decimal_text(n / 10);
        s.push((48 + (n % 10) as u8) as char);
        s
    }
}

/// The parts with `sep` between each two of them.
pub fn join(parts: &Vec<String>, sep: &str) -> (r: String)
    ensures
        r@ == joined(texts(parts@), sep@),
{
    let mut out = String::new();
    let mut i: usize = 0;
    let ghost all = texts(parts@);
    assert(all.take(0) == Seq::<Seq<char>>::empty());
    while i < parts.len()
        invariant
            i <= parts.len(),
            all == texts(parts@),
            out@ == joined(all.take(i as int), sep@),
        decreases parts.len() - i,
    {
        proof {
            assert(all.take(i + 1).drop_last() == all.take(i as int));
            assert(all.take(i + 1).last() == parts@[i as int]@);
        }
        if i > 0 {
            out.append(sep);
        }
        out.append(parts[i].as_str());
        assert(i == 0 ==> out@ == parts@[0]@);
        i += 1;
    }
    assert(all.take(i as int) == all);
    out
}

pub fn hex_digit(n: u8) -> (r: char)
    requires
        n < 16,
    ensures
        r == hex_char(n as nat),
{
    if n < 10 {
        (48 + n) as char
    } else {
        (97 + (n - 10)) as char
    }
}

fn upper_hex_digit(n: u8) -> (r: char)
    requires
        n < 16,
    ensures
        r == upper_char(hex_char(n as nat)),
{
    if n < 10 {
        (48 + n) as char
    } else {
        (65 + (n - 10)) as char
    }
}

/// The `width` lowest hexadecimal digits of a number, in lower case.
pub fn hex_text(n: u64, width: u64) -> (r: String)
    ensures
        r@ == hex_fixed(n as nat, width as nat),
    decreases width,
{
    if width == 0 {
        String::new()
    } else {
        let mut s = hex_text(n / 16, width - 1);
        s.push(hex_digit((n % 16) as u8));
        s
    }
}

/// A byte as two hexadecimal digits in upper case.
pub fn hex_byte_text(b: u8) -> (r: String)
    ensures
        r@ == hex_byte(b),
{
    let mut s = String::new();
    s.push(upper_hex_digit(b / 16));
    s.push(upper_hex_digit(b % 16));
    assert(s@ == hex_byte(b));
    s
}

/// A byte in as few upper-case hexadecimal digits as it takes.
pub fn hex_short_text(b: u8) -> (r: String)
    ensures
        r@ == hex_short(b),
{
    if b < 16 {
        let mut s = String::new();
        s.push(upper_hex_digit(b));
        assert(s@ == hex_short(b));
        s
    } else {
        hex_byte_text(b)
    }
}

/// Bytes as upper-case hexadecimal pairs with spaces between them.
pub fn format_bytes_hex(bytes: &[u8]) -> (r: String)
    ensures
        r@ == hex_bytes(bytes@),
{
    let mut parts: Vec<String> = Vec::new();
    let mut i: usize = 0;
    let ghost all = bytes@.map_values(|x: u8| hex_byte(x));
    while i < bytes.len()
        invariant
            i <= bytes.len(),
            all == bytes@.map_values(|x: u8| hex_byte(x)),
            texts(parts@) == all.take(i as int),
        decreases bytes.len() - i,
    {
        let b: u8 = bytes[i];
        let s = hex_byte_text(b);
        let ghost before = texts(parts@);
        parts.push(s);
        assert(texts(parts@) == before.push(hex_byte(b)));
        i += 1;
        assert(all.take(i as int) == all.take(i - 1).push(all[i - 1]));
    }
    assert(all.take(i as int) == all);
    join(&parts, " ")
}

/// Blanks.
pub open spec fn blanks(n: nat) -> Seq<char> {
    Seq::new(n, |i: int| ' ')
}

/// The text with blanks behind it up to a width.
pub open spec fn padded(s: Seq<char>, width: nat) -> Seq<char> {
    if s.len() < width {
        s + blanks((width - s.len()) as nat)
    } else {
        s
    }
}

pub fn pad_end(s: &str, width: usize) -> (r: String)
    ensures
        r@ == padded(s@, width as nat),
{
    let mut out = s.to_owned();
    let mut n: usize = s.unicode_len();
    assert(out@ =~= s@ + blanks(0));
    while n < width
        invariant
            s@.len() <= n,
            n <= width || n == s@.len(),
            out@ == s@ + blanks((n - s@.len()) as nat),
        decreases width - n,
    {
        let ghost before = out@;
        out.push(' ');
        n += 1;
        assert(out@ =~= s@ + blanks((n - s@.len()) as nat));
    }
    out
}

} // verus!

//! Laws of JSON: a value that is written is read back, and escapes stand for their characters.
use crate::json::{
    digit_at, escape_at, hex_digits_value, items_from, json_text, member_at, members_from,
    number_at, past_digits, past_white, string_at, string_rest, value_at, JsonModel,
};
use crate::table::{before, inserted, lemma_slot_range, ordered, slot};
use crate::text::{decimal, hex_fixed, is_digit, is_white, lemma_decimal};
use crate::text_laws::{all_white, law_decimal_digits};
use vstd::prelude::*;

verus! {

// ---------------------------------------------------------------------------
// Writing
// ---------------------------------------------------------------------------

/// A character of a string: quotes and backslashes behind a backslash.
pub open spec fn char_written(c: char) -> Seq<char> {
    if c == '"' || c == '\\' {
        seq!['\\', c]
    } else {
        seq![c]
    }
}

/// The characters of a string.
pub open spec fn chars_written(text: Seq<char>) -> Seq<char>
    decreases text.len(),
{
    if text.len() == 0 {
        seq![]
    } else {
        char_written(text[0]) + chars_written(text.skip(1))
    }
}

pub open spec fn string_written(text: Seq<char>) -> Seq<char> {
    seq!['"'] + chars_written(text) + seq!['"']
}

/// A value without blanks.
pub open spec fn written(v: JsonModel) -> Seq<char>
    decreases v, 1int, 0int,
{
    match v {
        JsonModel::Null => "null"@,
        JsonModel::Bool(true) => "true"@,
        JsonModel::Bool(false) => "false"@,
        JsonModel::Number(text) => text,
        JsonModel::String(text) => string_written(text),
        JsonModel::Array(items) => if items.len() == 0 {
            seq!['[', ']']
        } else {
            seq!['['] + items_written(v, 0)
        },
        JsonModel::Object(members) => if members.len() == 0 {
            seq!['{', '}']
        } else {
            seq!['{'] + members_written(v, 0)
        },
    }
}

/// The items of an array from the one at `k` on, and the bracket that ends it.
pub open spec fn items_written(v: JsonModel, k: int) -> Seq<char>
    decreases v, 0int, v->Array_0.len() - k,
{
    if !(v is Array) || k < 0 || k >= v->Array_0.len() {
        seq![]
    } else {
        written(v->Array_0[k]) + (if k + 1 < v->Array_0.len() {
            seq![','] + items_written(v, k + 1)
        } else {
            seq![']']
        })
    }
}

/// The members of an object from the one at `k` on, and the brace that ends it.
pub open spec fn members_written(v: JsonModel, k: int) -> Seq<char>
    decreases v, 0int, v->Object_0.len() - k,
{
    if !(v is Object) || k < 0 || k >= v->Object_0.len() {
        seq![]
    } else {
        string_written(v->Object_0[k].0) + seq![':'] + written(v->Object_0[k].1) + (if k + 1
            < v->Object_0.len() {
            seq![','] + members_written(v, k + 1)
        } else {
            seq!['}']
        })
    }
}

/// Every number is a whole number, and the members of every object stand in the order of their
/// names.
pub open spec fn plain(v: JsonModel) -> bool
    decreases v,
{
    match v {
        JsonModel::Number(text) => exists|n: nat| text == #[trigger] decimal(n),
        JsonModel::Array(items) => forall|i: int|
            0 <= i < items.len() ==> plain(#[trigger] items[i]),
        JsonModel::Object(members) => ordered(members) && forall|i: int|
            0 <= i < members.len() ==> plain((#[trigger] members[i]).1),
        _ => true,
    }
}

// ---------------------------------------------------------------------------
// Places
// ---------------------------------------------------------------------------

/// The text `t` stands in `s` at `p`.
pub open spec fn stands(s: Seq<char>, p: int, t: Seq<char>) -> bool {
    0 <= p && p + t.len() <= s.len() && s.subrange(p, p + t.len()) == t
}

proof fn lemma_stands_parts(s: Seq<char>, p: int, a: Seq<char>, b: Seq<char>)
    requires
        stands(s, p, a + b),
    ensures
        stands(s, p, a),
        stands(s, p + a.len(), b),
{
    let both = s.subrange(p, p + (a + b).len());
    assert(s.subrange(p, p + a.len()) =~= both.subrange(0, a.len() as int));
    assert((a + b).subrange(0, a.len() as int) =~= a);
    assert(s.subrange(p + a.len(), p + a.len() + b.len()) =~= both.subrange(
        a.len() as int,
        (a.len() + b.len()) as int,
    ));
    assert((a + b).subrange(a.len() as int, (a.len() + b.len()) as int) =~= b);
}

proof fn lemma_stands_char(s: Seq<char>, p: int, t: Seq<char>, i: int)
    requires
        stands(s, p, t),
        0 <= i < t.len(),
    ensures
        s[p + i] == t[i],
{
    assert(s.subrange(p, p + t.len())[i] == s[p + i]);
}

/// A value ends here: with the text, or before what goes on in an array or object.
pub open spec fn value_ends(s: Seq<char>, p: int) -> bool {
    p >= s.len() || s[p] == ',' || s[p] == ']' || s[p] == '}' || is_white(s[p])
}

// ---------------------------------------------------------------------------
// Reading back
// ---------------------------------------------------------------------------

proof fn lemma_chars_read(s: Seq<char>, p: int, read: Seq<char>, text: Seq<char>)
    requires
        stands(s, p, chars_written(text) + seq!['"']),
    ensures
        string_rest(s, p, read) == Ok::<(Seq<char>, int), Seq<char>>(
            (read + text, p + chars_written(text).len() + 1),
        ),
    decreases text.len(),
{
    if text.len() == 0 {
        lemma_stands_char(s, p, chars_written(text) + seq!['"'], 0);
        assert(read + text =~= read);
    } else {
        let first = char_written(text[0]);
        let rest = chars_written(text.skip(1)) + seq!['"'];
        assert(chars_written(text) + seq!['"'] =~= first + rest);
        lemma_stands_parts(s, p, first, rest);
        lemma_stands_char(s, p, first, 0);
        if first.len() == 2 {
            lemma_stands_char(s, p, first, 1);
        }
        lemma_chars_read(s, p + first.len(), read.push(text[0]), text.skip(1));
        assert(read.push(text[0]) + text.skip(1) =~= read + text);
    }
}

proof fn lemma_string_read(s: Seq<char>, p: int, text: Seq<char>)
    requires
        stands(s, p, string_written(text)),
    ensures
        string_at(s, p) == Ok::<(Seq<char>, int), Seq<char>>(
            (text, p + string_written(text).len()),
        ),
        s[p] == '"',
{
    let rest = chars_written(text) + seq!['"'];
    assert(string_written(text) =~= seq!['"'] + rest);
    lemma_stands_parts(s, p, seq!['"'], rest);
    lemma_stands_char(s, p, seq!['"'], 0);
    lemma_chars_read(s, p + 1, seq![], text);
    assert(Seq::<char>::empty() + text =~= text);
}

proof fn lemma_digits_read(s: Seq<char>, p: int, end: int)
    requires
        0 <= p <= end <= s.len(),
        forall|i: int| p <= i < end ==> '0' <= #[trigger] s[i] <= '9',
        !digit_at(s, end),
    ensures
        past_digits(s, p) == end,
    decreases end - p,
{
    if p < end {
        assert('0' <= s[p] <= '9');
        lemma_digits_read(s, p + 1, end);
    }
}

proof fn lemma_number_read(s: Seq<char>, p: int, n: nat)
    requires
        stands(s, p, decimal(n)),
        value_ends(s, p + decimal(n).len()),
    ensures
        number_at(s, p) == Ok::<(Seq<char>, int), Seq<char>>((decimal(n), p + decimal(n).len())),
        digit_at(s, p),
{
    let d = decimal(n);
    let end = p + d.len();
    lemma_decimal(n);
    assert forall|i: int| p <= i < end implies '0' <= #[trigger] s[i] <= '9' by {
        lemma_stands_char(s, p, d, i - p);
        assert(is_digit(d[i - p]));
    }
    assert(!digit_at(s, end));
    lemma_stands_char(s, p, d, 0);
    if n == 0 {
        law_decimal_digits(0, 0);
    } else {
        law_decimal_digits(n, 0);
        lemma_digits_read(s, p, end);
    }
}

proof fn lemma_first_char(v: JsonModel)
    requires
        plain(v),
    ensures
        written(v).len() > 0,
        !is_white(written(v)[0]),
        written(v)[0] != ']',
{
    reveal_strlit("null");
    reveal_strlit("true");
    reveal_strlit("false");
    if let JsonModel::Number(text) = v {
        let n = choose|n: nat| text == #[trigger] decimal(n);
        lemma_decimal(n);
        assert(is_digit(decimal(n)[0]));
    }
}

proof fn lemma_keyword(s: Seq<char>, p: int, word: Seq<char>)
    requires
        stands(s, p, word),
        word.len() > 0,
    ensures
        s.subrange(p, p + word.len()) == word,
        s[p] == word[0],
{
    lemma_stands_char(s, p, word, 0);
}

proof fn lemma_value_read(s: Seq<char>, p: int, v: JsonModel)
    requires
        plain(v),
        stands(s, p, written(v)),
        value_ends(s, p + written(v).len()),
    ensures
        value_at(s, p) == Ok::<(JsonModel, int), Seq<char>>((v, p + written(v).len())),
    decreases v, 1int, 0int,
{
    match v {
        JsonModel::Null => {
            reveal_strlit("null");
            lemma_keyword(s, p, "null"@);
        },
        JsonModel::Bool(b) => {
            reveal_strlit("true");
            reveal_strlit("false");
            lemma_keyword(
                s,
                p,
                if b {
                    "true"@
                } else {
                    "false"@
                },
            );
        },
        JsonModel::Number(text) => {
            let n = choose|n: nat| text == #[trigger] decimal(n);
            lemma_number_read(s, p, n);
        },
        JsonModel::String(text) => {
            lemma_string_read(s, p, text);
        },
        JsonModel::Array(items) => {
            lemma_stands_char(s, p, written(v), 0);
            if items.len() == 0 {
                lemma_stands_char(s, p, written(v), 1);
                assert(items =~= seq![]);
            } else {
                lemma_stands_parts(s, p, seq!['['], items_written(v, 0));
                lemma_items_read(s, p + 1, v, 0);
                lemma_first_char(items[0]);
                lemma_stands_char(s, p + 1, items_written(v, 0), 0);
                assert(items.take(0) =~= seq![]);
            }
        },
        JsonModel::Object(members) => {
            lemma_stands_char(s, p, written(v), 0);
            if members.len() == 0 {
                lemma_stands_char(s, p, written(v), 1);
                assert(members =~= seq![]);
            } else {
                lemma_stands_parts(s, p, seq!['{'], members_written(v, 0));
                lemma_members_read(s, p + 1, v, 0);
                lemma_stands_char(s, p + 1, members_written(v, 0), 0);
                assert(members.take(0) =~= seq![]);
            }
        },
    }
}

proof fn lemma_items_read(s: Seq<char>, p: int, v: JsonModel, k: int)
    requires
        plain(v),
        v is Array,
        0 <= k < v->Array_0.len(),
        stands(s, p, items_written(v, k)),
    ensures
        items_from(s, p, v->Array_0.take(k)) == Ok::<(JsonModel, int), Seq<char>>(
            (v, p + items_written(v, k).len()),
        ),
    decreases v, 0int, v->Array_0.len() - k,
{
    let items = v->Array_0;
    let item = items[k];
    let text = written(item);
    let last = k + 1 >= items.len();
    let tail = if last {
        seq![']']
    } else {
        seq![','] + items_written(v, k + 1)
    };
    assert(items_written(v, k) == text + tail);
    assert(plain(item));
    lemma_first_char(item);
    lemma_stands_parts(s, p, text, tail);
    lemma_stands_char(s, p, text, 0);
    lemma_stands_char(s, p + text.len(), tail, 0);
    assert(decreases_to!(v => item));
    lemma_value_read(s, p, item);
    assert(items.take(k).push(item) =~= items.take(k + 1));
    if last {
        assert(items.take(k + 1) =~= items);
    } else {
        lemma_stands_parts(s, p + text.len(), seq![','], items_written(v, k + 1));
        lemma_items_read(s, p + text.len() + 1, v, k + 1);
    }
}

proof fn lemma_members_read(s: Seq<char>, p: int, v: JsonModel, k: int)
    requires
        plain(v),
        v is Object,
        0 <= k < v->Object_0.len(),
        stands(s, p, members_written(v, k)),
    ensures
        members_from(s, p, v->Object_0.take(k)) == Ok::<(JsonModel, int), Seq<char>>(
            (v, p + members_written(v, k).len()),
        ),
    decreases v, 0int, v->Object_0.len() - k,
{
    let members = v->Object_0;
    let (name, value) = members[k];
    let key = string_written(name);
    let text = written(value);
    let last = k + 1 >= members.len();
    let tail = if last {
        seq!['}']
    } else {
        seq![','] + members_written(v, k + 1)
    };
    assert(members_written(v, k) == key + seq![':'] + text + tail);
    assert(plain(members[k].1));
    lemma_first_char(value);
    lemma_stands_parts(s, p, key + seq![':'] + text, tail);
    lemma_stands_parts(s, p, key + seq![':'], text);
    lemma_stands_parts(s, p, key, seq![':']);
    let colon = p + key.len();
    let at = colon + 1;
    let end = at + text.len();
    lemma_string_read(s, p, name);
    lemma_stands_char(s, colon, seq![':'], 0);
    lemma_stands_char(s, at, text, 0);
    lemma_stands_char(s, end, tail, 0);
    assert(decreases_to!(v => value));
    lemma_value_read(s, at, value);
    assert(member_at(s, p) == Ok::<(Seq<char>, JsonModel, int), Seq<char>>((name, value, end)));
    lemma_appended(members, k);
    if last {
        assert(members.take(k + 1) =~= members);
    } else {
        lemma_stands_parts(s, end, seq![','], members_written(v, k + 1));
        lemma_members_read(s, end + 1, v, k + 1);
    }
}

proof fn lemma_appended(members: Seq<(Seq<char>, JsonModel)>, k: int)
    requires
        ordered(members),
        0 <= k < members.len(),
    ensures
        inserted(members.take(k), members[k].0, members[k].1) == members.take(k + 1),
{
    let t = members.take(k);
    let key = members[k].0;
    lemma_slot_range(t, key);
    if slot(t, key) < t.len() {
        let i = slot(t, key) as int;
        assert(before(members[i].0, members[k].0));
        assert(t[i] == members[i]);
    }
    assert(t.insert(k, members[k]) =~= members.take(k + 1));
}

proof fn lemma_white_read(s: Seq<char>, p: int, end: int)
    requires
        0 <= p <= end <= s.len(),
        forall|i: int| p <= i < end ==> is_white(#[trigger] s[i]),
        end < s.len() ==> !is_white(s[end]),
    ensures
        past_white(s, p) == end,
    decreases end - p,
{
    if p < end {
        assert(is_white(s[p]));
        lemma_white_read(s, p + 1, end);
    }
}

/// A value that is written, with blanks and line ends around it, is read back as it is; with
/// anything else behind it, it is refused.
pub proof fn law_written_value_is_read(v: JsonModel, front: Seq<char>, back: Seq<char>, more: Seq<char>)
    requires
        plain(v),
        all_white(front),
        all_white(back),
        more.len() > 0,
        !is_white(more[0]),
        back.len() > 0,
    ensures
        json_text(front + written(v) + back) == Ok::<JsonModel, Seq<char>>(v),
        json_text(written(v)) == Ok::<JsonModel, Seq<char>>(v),
        json_text(front + written(v) + back + more) is Err,
{
    let t = written(v);
    lemma_first_char(v);
    let s = front + t + back;
    assert(s.subrange(front.len() as int, (front.len() + t.len()) as int) =~= t);
    assert forall|i: int| 0 <= i < front.len() implies is_white(#[trigger] s[i]) by {
        assert(front[i] == s[i]);
    }
    assert(s[front.len() as int] == t[0]);
    lemma_white_read(s, 0, front.len() as int);
    assert(back[0] == s[(front.len() + t.len()) as int]);
    lemma_value_read(s, front.len() as int, v);
    let end = (front.len() + t.len()) as int;
    assert forall|i: int| end <= i < s.len() implies is_white(#[trigger] s[i]) by {
        assert(back[i - end] == s[i]);
    }
    lemma_white_read(s, end, s.len() as int);
    assert(t.subrange(0, t.len() as int) =~= t);
    lemma_value_read(t, 0, v);
    let u = s + more;
    assert(u.subrange(front.len() as int, (front.len() + t.len()) as int) =~= t);
    assert forall|i: int| 0 <= i < front.len() implies is_white(#[trigger] u[i]) by {
        assert(s[i] == u[i]);
    }
    assert(u[front.len() as int] == t[0]);
    lemma_white_read(u, 0, front.len() as int);
    assert(back[0] == u[end]);
    lemma_value_read(u, front.len() as int, v);
    assert forall|i: int| end <= i < s.len() implies is_white(#[trigger] u[i]) by {
        assert(s[i] == u[i]);
    }
    assert(u[s.len() as int] == more[0]);
    lemma_white_read(u, end, s.len() as int);
}

/// A letter behind a backslash stands for its character, and `u` with four hexadecimal digits for
/// the character of that number.
pub proof fn law_escapes(s: Seq<char>, p: int)
    requires
        0 <= p < s.len(),
    ensures
        s[p] == 'n' ==> escape_at(s, p) == Ok::<(char, int), Seq<char>>(('\n', p + 1)),
        s[p] == 'r' ==> escape_at(s, p) == Ok::<(char, int), Seq<char>>(('\r', p + 1)),
        s[p] == 't' ==> escape_at(s, p) == Ok::<(char, int), Seq<char>>(('\t', p + 1)),
        s[p] == '/' ==> escape_at(s, p) == Ok::<(char, int), Seq<char>>(('/', p + 1)),
        s[p] == 'b' ==> (escape_at(s, p) matches Ok((c, q)) && c as int == 8 && q == p + 1),
        s[p] == 'f' ==> (escape_at(s, p) matches Ok((c, q)) && c as int == 12 && q == p + 1),
        escape_at(s, p) is Ok ==> s[p] == '"' || s[p] == '\\' || s[p] == '/' || s[p] == 'b' || s[p]
            == 'f' || s[p] == 'n' || s[p] == 'r' || s[p] == 't' || s[p] == 'u',
{
}

/// The character of a number below the surrogates, written as `u` and four digits, is read.
pub proof fn law_unicode_escape(n: nat, rest: Seq<char>)
    requires
        n < 0xD800,
    ensures
        escape_at(seq!['u'] + hex_fixed(n, 4) + rest, 0) matches Ok((c, q)) && c as int == n && q == 5,
{
    let s = seq!['u'] + hex_fixed(n, 4) + rest;
    let d = hex_fixed(n, 4);
    lemma_hex_read(n, 4);
    lemma_hex_first(n, 4);
    assert(s.subrange(1, 5) =~= d);
    assert(n / 16 / 16 / 16 / 16 == 0);
}

proof fn lemma_hex_first(n: nat, width: nat)
    requires
        width > 0,
    ensures
        hex_fixed(n, width).len() == width,
        hex_fixed(n, width)[0] != '+',
    decreases width,
{
    if width > 1 {
        lemma_hex_first(n / 16, (width - 1) as nat);
    } else {
        assert(hex_fixed(n / 16, 0).len() == 0);
    }
}

/// The value that so many hexadecimal digits hold of a number.
pub open spec fn low_digits(n: nat, width: nat) -> nat
    decreases width,
{
    if width == 0 {
        0
    } else {
        low_digits(n / 16, (width - 1) as nat) * 16 + n % 16
    }
}

proof fn lemma_hex_read(n: nat, width: nat)
    ensures
        hex_digits_value(hex_fixed(n, width)) == Some(low_digits(n, width)),
        width == 4 && n < 0x1_0000 ==> low_digits(n, width) == n,
    decreases width,
{
    if width > 0 {
        lemma_hex_read(n / 16, (width - 1) as nat);
        assert(hex_fixed(n, width).drop_last() =~= hex_fixed(n / 16, (width - 1) as nat));
    }
    if width == 4 {
        reveal_with_fuel(low_digits, 5);
    }
}

} // verus!

//! Laws of texts: trimming, cutting, letters, digits and paths.
use crate::paths::{joined_path, usual_log_dir};
use crate::text::{
    begins, cut_at_first, cut_at_last, decimal, digits_value, first_at, hex_byte, hex_bytes,
    hex_fixed, is_digit, is_white, last_at, lemma_decimal, lemma_first_at_range,
    lemma_number_of_decimal, lower, number, padded, pieces, trim_end, trim_start, trimmed, upper,
};
use vstd::prelude::*;

verus! {

/// All of the text is white space.
pub open spec fn all_white(s: Seq<char>) -> bool {
    forall|i: int| 0 <= i < s.len() ==> is_white(#[trigger] s[i])
}

proof fn lemma_start_trimmed(s: Seq<char>) -> (k: int)
    ensures
        0 <= k <= s.len(),
        trim_start(s) == s.skip(k),
        all_white(s.take(k)),
        k < s.len() ==> !is_white(s[k]),
    decreases s.len(),
{
    if s.len() > 0 && is_white(s[0]) {
        let t = s.skip(1);
        let k = lemma_start_trimmed(t);
        assert(t.skip(k) =~= s.skip(k + 1));
        assert forall|i: int| 0 <= i < k + 1 implies is_white(#[trigger] s.take(k + 1)[i]) by {
            if i > 0 {
                assert(t.take(k)[i - 1] == s[i]);
            }
        }
        k + 1
    } else {
        assert(s.skip(0) =~= s);
        0
    }
}

proof fn lemma_end_trimmed(s: Seq<char>) -> (k: int)
    ensures
        0 <= k <= s.len(),
        trim_end(s) == s.take(k),
        all_white(s.skip(k)),
        k > 0 ==> !is_white(s[k - 1]),
    decreases s.len(),
{
    if s.len() > 0 && is_white(s.last()) {
        let t = s.drop_last();
        let k = lemma_end_trimmed(t);
        assert(t.take(k) =~= s.take(k));
        assert forall|i: int| 0 <= i < s.len() - k implies is_white(#[trigger] s.skip(k)[i]) by {
            if i < t.len() - k {
                assert(t.skip(k)[i] == s[k + i]);
            }
        }
        k
    } else {
        assert(s.take(s.len() as int) =~= s);
        s.len() as int
    }
}

/// Trimming takes white space away at both ends, all of it, and nothing else.
pub proof fn law_trimmed(s: Seq<char>) -> (ends: (Seq<char>, Seq<char>))
    ensures
        s == ends.0 + trimmed(s) + ends.1,
        all_white(ends.0),
        all_white(ends.1),
        trimmed(s).len() > 0 ==> !is_white(trimmed(s)[0]) && !is_white(trimmed(s).last()),
{
    let k = lemma_start_trimmed(s);
    let t = trim_start(s);
    let n = lemma_end_trimmed(t);
    let front = s.take(k);
    let back = t.skip(n);
    assert(s =~= front + trimmed(s) + back);
    (front, back)
}

/// Blanks, tabs and line ends are white space, what is printed of ASCII is not.
pub proof fn law_white_space(c: char)
    ensures
        c == ' ' || c == '\t' || c == '\n' || c == '\r' ==> is_white(c),
        '!' <= c <= '~' ==> !is_white(c),
{
}

/// Cutting at the first of a character gives what stands before it and what stands behind it, and
/// nothing exactly where there is none.
pub proof fn law_cut_at_first(s: Seq<char>, c: char)
    ensures
        cut_at_first(s, c) is None <==> !s.contains(c),
        cut_at_first(s, c) matches Some((a, b)) ==> s == a.push(c) + b && !a.contains(c),
{
    lemma_first_at_range(s, c);
    let k = first_at(s, c);
    if k < s.len() {
        assert(s[k] == c);
        assert(s =~= s.take(k).push(c) + s.skip(k + 1));
    }
}

proof fn lemma_last_at_range(s: Seq<char>, c: char)
    ensures
        -1 <= last_at(s, c) < s.len(),
        last_at(s, c) >= 0 ==> s[last_at(s, c)] == c,
        forall|i: int| last_at(s, c) < i < s.len() ==> #[trigger] s[i] != c,
    decreases s.len(),
{
    if s.len() > 0 && s.last() != c {
        let t = s.drop_last();
        lemma_last_at_range(t, c);
        assert forall|i: int| last_at(s, c) < i < s.len() implies #[trigger] s[i] != c by {
            if i < t.len() {
                assert(t[i] == s[i]);
            }
        }
    }
}

/// Cutting at the last of a character gives what stands before it and what stands behind it, and
/// nothing exactly where there is none.
pub proof fn law_cut_at_last(s: Seq<char>, c: char)
    ensures
        cut_at_last(s, c) is None <==> !s.contains(c),
        cut_at_last(s, c) matches Some((a, b)) ==> s == a.push(c) + b && !b.contains(c),
{
    lemma_last_at_range(s, c);
    let k = last_at(s, c);
    if k >= 0 {
        assert(s =~= s.take(k).push(c) + s.skip(k + 1));
    }
}

/// No piece holds the character that the text was cut at.
pub proof fn law_pieces_are_cut(s: Seq<char>, c: char, i: int)
    requires
        0 <= i < pieces(s, c).len(),
    ensures
        !pieces(s, c)[i].contains(c),
    decreases s.len(),
{
    lemma_first_at_range(s, c);
    let k = first_at(s, c);
    if 0 <= k < s.len() {
        let rest = pieces(s.skip(k + 1), c);
        if i > 0 {
            law_pieces_are_cut(s.skip(k + 1), c, i - 1);
            assert(pieces(s, c)[i] == rest[i - 1]);
        }
    }
}

/// The letters of ASCII change their case, and nothing else changes.
pub proof fn law_case(s: Seq<char>, i: int)
    requires
        0 <= i < s.len(),
    ensures
        lower(s).len() == s.len() && upper(s).len() == s.len(),
        'A' <= s[i] <= 'Z' ==> lower(s)[i] as int == s[i] as int + 32 && upper(s)[i] == s[i],
        'a' <= s[i] <= 'z' ==> upper(s)[i] as int == s[i] as int - 32 && lower(s)[i] == s[i],
        !('A' <= s[i] <= 'Z') && !('a' <= s[i] <= 'z') ==> lower(s)[i] == s[i] && upper(s)[i]
            == s[i],
{
}

/// A number is written with as few digits as it takes: one more digit behind it is ten times the
/// number and the digit.
pub proof fn law_decimal_digits(n: nat, d: nat)
    requires
        d < 10,
    ensures
        decimal(d).len() == 1 && decimal(d)[0] as int == '0' as int + d,
        n > 0 ==> decimal(n * 10 + d) == decimal(n) + decimal(d),
        n > 0 ==> decimal(n)[0] != '0',
    decreases n,
{
    if n > 0 {
        assert((n * 10 + d) / 10 == n && (n * 10 + d) % 10 == d);
        assert(decimal(n * 10 + d) =~= decimal(n) + decimal(d));
        if n >= 10 {
            law_decimal_digits(n / 10, n % 10);
        }
    }
}

/// What is read as a number is digits, with a plus sign before them at most; a written number is
/// read as itself, zeros before it do not count, and no two numbers are written alike.
pub proof fn law_numbers(s: Seq<char>, n: nat, m: nat)
    ensures
        number(decimal(n)) == Some(n),
        number(seq!['+'] + decimal(n)) == Some(n),
        number(seq!['0'] + decimal(n)) == Some(n),
        decimal(n) == decimal(m) ==> n == m,
        number(s) is Some ==> s.len() > 0 && (is_digit(s[0]) || s[0] == '+') && forall|i: int|
            1 <= i < s.len() ==> is_digit(#[trigger] s[i]),
        number(Seq::empty()) is None,
{
    lemma_decimal(n);
    lemma_number_of_decimal(n);
    lemma_number_of_decimal(m);
    let signed = seq!['+'] + decimal(n);
    assert(signed.skip(1) =~= decimal(n));
    let zero = seq!['0'] + decimal(n);
    assert forall|i: int| 0 <= i < zero.len() implies is_digit(#[trigger] zero[i]) by {
        if i > 0 {
            assert(zero[i] == decimal(n)[i - 1]);
        }
    }
    lemma_zero_before(decimal(n));
    if number(s) is Some {
        let d = if begins(s, '+') {
            s.skip(1)
        } else {
            s
        };
        assert forall|i: int| 1 <= i < s.len() implies is_digit(#[trigger] s[i]) by {
            if begins(s, '+') {
                assert(d[i - 1] == s[i]);
            }
        }
    }
}

pub proof fn lemma_zero_before(s: Seq<char>)
    ensures
        digits_value(seq!['0'] + s) == digits_value(s),
    decreases s.len(),
{
    let all = seq!['0'] + s;
    if s.len() == 0 {
        assert(all.drop_last() =~= Seq::<char>::empty());
        assert(digits_value(all.drop_last()) == 0);
    } else {
        lemma_zero_before(s.drop_last());
        assert(all.drop_last() =~= seq!['0'] + s.drop_last());
    }
}

/// The value of a hexadecimal digit.
pub open spec fn hex_value(c: char) -> int {
    if '0' <= c <= '9' {
        c as int - '0' as int
    } else if 'a' <= c <= 'f' {
        c as int - 'a' as int + 10
    } else if 'A' <= c <= 'F' {
        c as int - 'A' as int + 10
    } else {
        -1
    }
}

/// A byte is written as two hexadecimal digits, the high one first, with capital letters.
pub proof fn law_hex_byte(b: u8)
    ensures
        hex_byte(b).len() == 2,
        hex_value(hex_byte(b)[0]) * 16 + hex_value(hex_byte(b)[1]) == b,
        0 <= hex_value(hex_byte(b)[0]) < 16 && 0 <= hex_value(hex_byte(b)[1]) < 16,
        !('a' <= hex_byte(b)[0] <= 'f') && !('a' <= hex_byte(b)[1] <= 'f'),
{
}

proof fn lemma_hex_bytes_grow(b: Seq<u8>)
    requires
        b.len() > 0,
    ensures
        b.len() == 1 ==> hex_bytes(b) == hex_byte(b[0]),
        b.len() > 1 ==> hex_bytes(b) == hex_bytes(b.drop_last()) + " "@ + hex_byte(b.last()),
{
    let parts = b.map_values(|x: u8| hex_byte(x));
    assert(parts.drop_last() =~= b.drop_last().map_values(|x: u8| hex_byte(x)));
}

proof fn lemma_hex_bytes_len(b: Seq<u8>)
    requires
        b.len() > 0,
    ensures
        hex_bytes(b).len() == 3 * b.len() - 1,
    decreases b.len(),
{
    reveal_strlit(" ");
    lemma_hex_bytes_grow(b);
    if b.len() > 1 {
        lemma_hex_bytes_len(b.drop_last());
    }
}

/// Bytes stand in a row with one blank between each two.
pub proof fn law_hex_bytes(b: Seq<u8>, i: int)
    requires
        0 <= i < b.len(),
    ensures
        hex_bytes(b).len() == 3 * b.len() - 1,
        hex_bytes(b)[3 * i] == hex_byte(b[i])[0],
        hex_bytes(b)[3 * i + 1] == hex_byte(b[i])[1],
        i + 1 < b.len() ==> hex_bytes(b)[3 * i + 2] == ' ',
    decreases b.len(),
{
    reveal_strlit(" ");
    lemma_hex_bytes_len(b);
    lemma_hex_bytes_grow(b);
    if b.len() > 1 {
        let before = b.drop_last();
        lemma_hex_bytes_len(before);
        if i < before.len() {
            law_hex_bytes(before, i);
        }
    }
}

/// A number of a fixed width has as many digits, the lowest one last.
pub proof fn law_hex_fixed(n: nat, width: nat)
    requires
        width > 0,
    ensures
        hex_fixed(n, width).len() == width,
        hex_value(hex_fixed(n, width).last()) == n % 16,
        hex_fixed(n, width).drop_last() == hex_fixed(n / 16, (width - 1) as nat),
        !('A' <= hex_fixed(n, width).last() <= 'F'),
    decreases width,
{
    if width > 1 {
        law_hex_fixed(n / 16, (width - 1) as nat);
    } else {
        assert(hex_fixed(n / 16, 0).len() == 0);
    }
    assert(hex_fixed(n, width).drop_last() =~= hex_fixed(n / 16, (width - 1) as nat));
}

/// A padded text has its width, begins with the text and goes on with blanks.
pub proof fn law_padded(s: Seq<char>, width: nat, i: int)
    ensures
        padded(s, width).len() == if s.len() < width {
            width
        } else {
            s.len()
        },
        padded(s, width).take(s.len() as int) == s,
        s.len() <= i < width ==> padded(s, width)[i] == ' ',
{
    assert(padded(s, width).take(s.len() as int) =~= s);
}

/// An absolute path stands for itself; any other is seen from the directory, with one slash
/// between them.
pub proof fn law_joined_path(base: Seq<char>, path: Seq<char>)
    requires
        path.len() > 0,
    ensures
        path[0] == '/' ==> joined_path(base, path) == path,
        base.len() == 0 ==> joined_path(base, path) == path,
        path[0] != '/' && base.len() > 0 ==> {
            let all = joined_path(base, path);
            let before = all.take(all.len() - path.len());
            &&& all.skip(all.len() - path.len()) == path
            &&& before.len() > 0 && before.last() == '/'
            &&& before == base || before == base.push('/') && base.last() != '/'
        },
{
    reveal_strlit("/");
    if path[0] != '/' && base.len() > 0 {
        let all = joined_path(base, path);
        let before = all.take(all.len() - path.len());
        assert(all.skip(all.len() - path.len()) =~= path);
        if base.last() == '/' {
            assert(before =~= base);
        } else {
            assert(before =~= base.push('/'));
        }
    }
}

/// Logs go to `logs` in the current directory, or below `.` where that is unknown.
pub proof fn law_usual_log_dir(dir: Seq<char>)
    requires
        dir.len() > 0,
        dir.last() != '/',
    ensures
        usual_log_dir(Some(dir)) == dir + "/logs"@,
        usual_log_dir(None) == "./logs"@,
{
    reveal_strlit("logs");
    reveal_strlit("/");
    reveal_strlit("/logs");
    reveal_strlit(".");
    reveal_strlit("./logs");
    assert(usual_log_dir(Some(dir)) =~= dir + "/logs"@);
    assert(usual_log_dir(None) =~= "./logs"@);
}

} // verus!

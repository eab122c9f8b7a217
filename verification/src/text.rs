//! Character-level text utilities over `str`, `String` and `Vec<char>`.

use vstd::prelude::*;
use vstd::utf8::{
    decode_utf8, encode_utf8, encode_utf8_decode_utf8, encode_utf8_valid_utf8, is_char_boundary,
    is_char_boundary_iff_not_is_continuation_byte, valid_utf8_split,
};
use vstd::std_specs::iter::IteratorSpec;
use vstd::string::StringSliceAdditionalSpecFns;

verus! {

/// `String::push` appends one character to the end of the string.
pub assume_specification[ String::push ](s: &mut String, ch: char)
    ensures
        final(s)@ == old(s)@.push(ch),
;

/// The characters of `s`, in order.
pub fn chars_of(s: &str) -> (r: Vec<char>)
    ensures
        r@ == s@,
{
    let mut it = s.chars();
    let mut out: Vec<char> = Vec::new();
    proof {
        vstd::string::axiom_spec_iter(s);
    }
    loop
        invariant
            out@ + it.remaining() == s@,
            it.obeys_prophetic_iter_laws(),
            it.decrease() is Some,
        ensures
            out@ == s@,
        decreases it.decrease()->0,
    {
        let c = it.next();
        match c {
            Some(ch) => {
                out.push(ch);
            },
            None => {
                break;
            },
        }
    }
    out
}

/// Builds a `String` holding exactly the given characters.
pub fn string_from_chars(cs: &Vec<char>) -> (r: String)
    ensures
        r@ == cs@,
{
    let mut s = String::new();
    let mut i: usize = 0;
    while i < cs.len()
        invariant
            i <= cs.len(),
            s@ == cs@.subrange(0, i as int),
        decreases cs.len() - i,
    {
        s.push(cs[i]);
        i = i + 1;
        assert(s@ =~= cs@.subrange(0, i as int));
    }
    assert(cs@.subrange(0, cs.len() as int) =~= cs@);
    s
}

/// Whether two string slices hold the same characters.
pub fn str_eq(a: &str, b: &str) -> (r: bool)
    ensures
        r == (a@ == b@),
{
    let ab = a.as_bytes();
    let bb = b.as_bytes();
    proof {
        encode_utf8_decode_utf8(a@);
        encode_utf8_decode_utf8(b@);
    }
    if ab.len() != bb.len() {
        return false;
    }
    let mut i: usize = 0;
    while i < ab.len()
        invariant
            ab@ == a.spec_bytes(),
            bb@ == b.spec_bytes(),
            ab@.len() == bb@.len(),
            i <= ab@.len(),
            forall|j: int| 0 <= j < i ==> ab@[j] == bb@[j],
        decreases ab@.len() - i,
    {
        if ab[i] != bb[i] {
            return false;
        }
        i = i + 1;
    }
    assert(ab@ =~= bb@);
    true
}


/// The Unicode `White_Space` property, which `char::is_whitespace`, `str::trim` and
/// `str::split_whitespace` go by.
pub open spec fn is_ws(c: char) -> bool {
    ||| c == '\t'
    ||| c == '\n'
    ||| c == '\u{0B}'
    ||| c == '\u{0C}'
    ||| c == '\r'
    ||| c == ' '
    ||| c == '\u{85}'
    ||| c == '\u{A0}'
    ||| c == '\u{1680}'
    ||| ('\u{2000}' <= c && c <= '\u{200A}')
    ||| c == '\u{2028}'
    ||| c == '\u{2029}'
    ||| c == '\u{202F}'
    ||| c == '\u{205F}'
    ||| c == '\u{3000}'
}

pub fn is_whitespace(c: char) -> (r: bool)
    ensures
        r == is_ws(c),
{
    c == '\t' || c == '\n' || c == '\u{0B}' || c == '\u{0C}' || c == '\r' || c == ' '
        || c == '\u{85}' || c == '\u{A0}' || c == '\u{1680}' || ('\u{2000}' <= c && c
        <= '\u{200A}') || c == '\u{2028}' || c == '\u{2029}' || c == '\u{202F}' || c
        == '\u{205F}' || c == '\u{3000}'
}

/// `s` without its leading white space.
pub open spec fn trim_start(s: Seq<char>) -> Seq<char>
    decreases s.len(),
{
    if s.len() > 0 && is_ws(s[0]) {
        trim_start(s.drop_first())
    } else {
        s
    }
}

/// `s` without its trailing white space.
pub open spec fn trim_end(s: Seq<char>) -> Seq<char>
    decreases s.len(),
{
    if s.len() > 0 && is_ws(s.last()) {
        trim_end(s.drop_last())
    } else {
        s
    }
}

/// `s` without leading and trailing white space, as `str::trim` gives it.
pub open spec fn trim(s: Seq<char>) -> Seq<char> {
    trim_end(trim_start(s))
}

proof fn lemma_trim_start_skip(s: Seq<char>, i: int)
    requires
        0 <= i <= s.len(),
        forall|j: int| 0 <= j < i ==> is_ws(#[trigger] s[j]),
        i == s.len() || !is_ws(s[i]),
    ensures
        trim_start(s) == s.skip(i),
    decreases i,
{
    if i == 0 {
        assert(s.skip(0) =~= s);
    } else {
        assert forall|j: int| 0 <= j < i - 1 implies is_ws(#[trigger] s.drop_first()[j]) by {
            assert(s.drop_first()[j] == s[j + 1]);
        }
        lemma_trim_start_skip(s.drop_first(), i - 1);
        assert(s.drop_first().skip(i - 1) =~= s.skip(i));
    }
}

proof fn lemma_trim_end_take(s: Seq<char>, k: int)
    requires
        0 <= k <= s.len(),
        forall|j: int| k <= j < s.len() ==> is_ws(#[trigger] s[j]),
        k == 0 || !is_ws(s[k - 1]),
    ensures
        trim_end(s) == s.take(k),
    decreases s.len() - k,
{
    if k == s.len() {
        assert(s.take(k) =~= s);
    } else {
        assert forall|j: int| k <= j < s.len() - 1 implies is_ws(#[trigger] s.drop_last()[j]) by {
            assert(s.drop_last()[j] == s[j]);
        }
        lemma_trim_end_take(s.drop_last(), k);
        assert(s.drop_last().take(k) =~= s.take(k));
    }
}

/// The characters of `cs` without leading and trailing white space.
pub fn trim_chars(cs: &Vec<char>) -> (r: Vec<char>)
    ensures
        r@ == trim(cs@),
{
    let n = cs.len();
    let mut i: usize = 0;
    while i < n && is_whitespace(cs[i])
        invariant
            n == cs@.len(),
            i <= n,
            forall|j: int| 0 <= j < i ==> is_ws(#[trigger] cs@[j]),
        decreases n - i,
    {
        i = i + 1;
    }
    proof {
        lemma_trim_start_skip(cs@, i as int);
    }
    let ghost t = cs@.skip(i as int);
    let mut k: usize = n;
    while k > i && is_whitespace(cs[k - 1])
        invariant
            n == cs@.len(),
            i <= k <= n,
            t == cs@.skip(i as int),
            forall|j: int| k <= j < n ==> is_ws(#[trigger] cs@[j]),
        decreases k,
    {
        k = k - 1;
    }
    proof {
        assert forall|j: int| k - i <= j < t.len() implies is_ws(#[trigger] t[j]) by {
            assert(t[j] == cs@[j + i]);
        }
        if k > i {
            assert(t[k - i - 1] == cs@[k - 1]);
        }
        lemma_trim_end_take(t, k - i);
    }
    let mut out: Vec<char> = Vec::new();
    let mut j: usize = i;
    while j < k
        invariant
            n == cs@.len(),
            i <= j <= k <= n,
            out@ == cs@.subrange(i as int, j as int),
        decreases k - j,
    {
        out.push(cs[j]);
        j = j + 1;
        assert(out@ =~= cs@.subrange(i as int, j as int));
    }
    assert(t.take(k - i) =~= cs@.subrange(i as int, k as int));
    out
}

/// Whether `pat` occurs in `hay` starting at position `i`.
pub open spec fn occurs_at(hay: Seq<char>, pat: Seq<char>, i: int) -> bool {
    0 <= i && i + pat.len() <= hay.len() && hay.subrange(i, i + pat.len()) == pat
}

/// Whether `pat` occurs in `hay`, as `str::contains` tells.
pub open spec fn seq_contains(hay: Seq<char>, pat: Seq<char>) -> bool {
    exists|i: int| occurs_at(hay, pat, i)
}

fn occurs_at_exec(hay: &Vec<char>, pat: &Vec<char>, i: usize) -> (r: bool)
    requires
        i + pat@.len() <= hay@.len(),
    ensures
        r == occurs_at(hay@, pat@, i as int),
{
    let hl = hay.len();
    let mut j: usize = 0;
    while j < pat.len()
        invariant
            i + pat@.len() <= hay@.len(),
            hay@.len() == hl,
            j <= pat@.len(),
            forall|m: int| 0 <= m < j ==> hay@[i + m] == pat@[m],
        decreases pat@.len() - j,
    {
        if hay[i + j] != pat[j] {
            assert(hay@.subrange(i as int, i + pat@.len())[j as int] != pat@[j as int]);
            return false;
        }
        j = j + 1;
    }
    assert(hay@.subrange(i as int, i + pat@.len()) =~= pat@);
    true
}

/// Whether `pat` occurs in `hay`.
pub fn contains_chars(hay: &Vec<char>, pat: &Vec<char>) -> (r: bool)
    ensures
        r == seq_contains(hay@, pat@),
{
    if pat.len() > hay.len() {
        return false;
    }
    let last = hay.len() - pat.len();
    let mut i: usize = 0;
    loop
        invariant
            last + pat@.len() == hay@.len(),
            i <= last,
            forall|m: int| 0 <= m < i ==> !occurs_at(hay@, pat@, m),
        decreases last - i,
    {
        if occurs_at_exec(hay, pat, i) {
            return true;
        }
        if i == last {
            assert forall|m: int| !occurs_at(hay@, pat@, m) by {
                if 0 <= m && m + pat@.len() <= hay@.len() {
                    assert(m <= last);
                }
            }
            return false;
        }
        i = i + 1;
    }
}


/// The characters of `s` from position `start` up to `end`, where a bound past the end of
/// `s` falls back as a character-position lookup does: a start past the end to
/// the beginning of `s`, an end past the end to the end of `s`.
pub open spec fn window(s: Seq<char>, start: int, end: int) -> Seq<char> {
    let a = if start < s.len() { start } else { 0 };
    let b = if end < s.len() { end } else { s.len() as int };
    s.subrange(a, b)
}

/// The characters of `cs` in the window `start..end` (see `window`).
pub fn char_window(cs: &Vec<char>, start: usize, end: usize) -> (r: Vec<char>)
    requires
        start <= end,
    ensures
        r@ == window(cs@, start as int, end as int),
{
    let n = cs.len();
    let a = if start < n { start } else { 0 };
    let b = if end < n { end } else { n };
    let mut out: Vec<char> = Vec::new();
    let mut j: usize = a;
    while j < b
        invariant
            n == cs@.len(),
            a <= j <= b <= n,
            out@ == cs@.subrange(a as int, j as int),
        decreases b - j,
    {
        out.push(cs[j]);
        j = j + 1;
        assert(out@ =~= cs@.subrange(a as int, j as int));
    }
    out
}

/// `w` stands in `s` at position `i` as a whole word: white space, or the end of `s`, on
/// either side of it.
pub open spec fn word_at(s: Seq<char>, w: Seq<char>, i: int) -> bool {
    &&& occurs_at(s, w, i)
    &&& (i == 0 || is_ws(s[i - 1]))
    &&& (i + w.len() == s.len() || is_ws(s[i + w.len()]))
}

/// Whether one of the white-space separated words of `s` is `w`.
pub open spec fn has_word(s: Seq<char>, w: Seq<char>) -> bool {
    exists|i: int| word_at(s, w, i)
}

/// Whether one of the white-space separated words of `s` is `w`.
pub fn has_word_chars(s: &Vec<char>, w: &Vec<char>) -> (r: bool)
    ensures
        r == has_word(s@, w@),
{
    if w.len() > s.len() {
        return false;
    }
    let sl = s.len();
    let last = sl - w.len();
    let mut i: usize = 0;
    loop
        invariant
            sl == s@.len(),
            last + w@.len() == s@.len(),
            i <= last,
            forall|m: int| 0 <= m < i ==> !word_at(s@, w@, m),
        decreases last - i,
    {
        let before_ok = i == 0 || is_whitespace(s[i - 1]);
        let after_ok = i + w.len() == s.len() || is_whitespace(s[i + w.len()]);
        if before_ok && after_ok && occurs_at_exec(s, w, i) {
            assert(word_at(s@, w@, i as int));
            return true;
        }
        if i == last {
            assert forall|m: int| !word_at(s@, w@, m) by {
                if 0 <= m && m + w@.len() <= s@.len() {
                    assert(m <= last);
                }
            }
            return false;
        }
        i = i + 1;
    }
}

pub open spec fn is_digit(c: char) -> bool {
    '0' <= c && c <= '9'
}

/// The number that the decimal digits `ds` write.
pub open spec fn digits_value(ds: Seq<char>) -> int
    decreases ds.len(),
{
    if ds.len() == 0 {
        0
    } else {
        digits_value(ds.drop_last()) * 10 + (ds.last() as int - '0' as int)
    }
}

/// `s` without its leading sign, if it has one.
pub open spec fn unsigned_part(s: Seq<char>) -> Seq<char> {
    if s.len() > 0 && (s[0] == '-' || s[0] == '+') {
        s.drop_first()
    } else {
        s
    }
}

/// The result of `str::parse::<i64>`: an optional `+` or `-` sign followed by one or more
/// ASCII digits, whose value fits in an `i64`.
pub open spec fn parse_i64_spec(s: Seq<char>) -> Option<i64> {
    let neg = s.len() > 0 && s[0] == '-';
    let ds = unsigned_part(s);
    if ds.len() == 0 || !(forall|i: int| 0 <= i < ds.len() ==> is_digit(#[trigger] ds[i])) {
        None
    } else {
        let v = if neg {
            -digits_value(ds)
        } else {
            digits_value(ds)
        };
        if i64::MIN <= v && v <= i64::MAX {
            Some(v as i64)
        } else {
            None
        }
    }
}

proof fn lemma_digits_value_prefix(ds: Seq<char>, k: int)
    requires
        0 <= k <= ds.len(),
        forall|i: int| 0 <= i < ds.len() ==> is_digit(#[trigger] ds[i]),
    ensures
        digits_value(ds) >= digits_value(ds.take(k)) >= 0,
    decreases ds.len(),
{
    if ds.len() == k {
        assert(ds.take(k) =~= ds);
        if k > 0 {
            lemma_digits_value_prefix(ds.drop_last(), k - 1);
        }
    } else {
        let dl = ds.drop_last();
        assert forall|i: int| 0 <= i < dl.len() implies is_digit(#[trigger] dl[i]) by {
            assert(dl[i] == ds[i]);
        }
        lemma_digits_value_prefix(dl, k);
        assert(dl.take(k) =~= ds.take(k));
    }
}

/// `str::parse::<i64>` on the characters `cs`.
pub fn parse_i64_chars(cs: &Vec<char>) -> (r: Option<i64>)
    ensures
        r == parse_i64_spec(cs@),
{
    let n = cs.len();
    let neg = n > 0 && cs[0] == '-';
    let start: usize = if n > 0 && (cs[0] == '-' || cs[0] == '+') {
        1
    } else {
        0
    };
    let ghost ds = unsigned_part(cs@);
    assert(ds =~= cs@.skip(start as int));
    if start == n {
        return None;
    }
    let mut acc: i128 = 0;
    let mut j: usize = start;
    while j < n
        invariant
            n == cs@.len(),
            start <= j <= n,
            ds == cs@.skip(start as int),
            ds == unsigned_part(cs@),
            neg == (cs@.len() > 0 && cs@[0] == '-'),
            forall|i: int| 0 <= i < j - start ==> is_digit(#[trigger] ds[i]),
            acc == digits_value(ds.take(j - start)),
            0 <= acc <= 0x8000_0000_0000_0000,
        decreases n - j,
    {
        let c = cs[j];
        if !('0' <= c && c <= '9') {
            assert(ds[j - start] == c);
            assert(!is_digit(ds[j - start]));
            assert(!(forall|i: int| 0 <= i < ds.len() ==> is_digit(#[trigger] ds[i])));
            return None;
        }
        let d = (c as u32 - '0' as u32) as i128;
        proof {
            assert(ds.take(j + 1 - start).drop_last() =~= ds.take(j - start));
            assert(ds.take(j + 1 - start).last() == c);
        }
        acc = acc * 10 + d;
        j = j + 1;
        if acc > 0x8000_0000_0000_0000 {
            proof {
                if forall|i: int| 0 <= i < ds.len() ==> is_digit(#[trigger] ds[i]) {
                    lemma_digits_value_prefix(ds, j - start);
                    assert(digits_value(ds) > 0x8000_0000_0000_0000);
                }
            }
            return None;
        }
    }
    assert(ds.take(n - start) =~= ds);
    if neg {
        Some((-acc) as i64)
    } else if acc <= 0x7FFF_FFFF_FFFF_FFFF {
        Some(acc as i64)
    } else {
        None
    }
}

/// `str::parse::<i64>`.
pub fn parse_i64(s: &str) -> (r: Option<i64>)
    ensures
        r == parse_i64_spec(s@),
{
    let cs = chars_of(s);
    parse_i64_chars(&cs)
}

} // verus!

verus! {

/// A log line that is a chat message: one of its words is `say` or `say_team`.
pub open spec fn is_chat(line: Seq<char>) -> bool {
    has_word(line, "say"@) || has_word(line, "say_team"@)
}

/// Whether `line` is no chat message.
pub fn remove_chat_messages(line: &str) -> (r: bool)
    ensures
        r == !is_chat(line@),
{
    let cs = chars_of(line);
    !(has_word_chars(&cs, &chars_of("say")) || has_word_chars(&cs, &chars_of("say_team")))
}

} // verus!

verus! {

/// The text at bytes `a..b` of the UTF-8 encoding of `s`, as `&s[a..b]` gives it.
pub open spec fn byte_slice(s: Seq<char>, a: int, b: int) -> Seq<char> {
    decode_utf8(encode_utf8(s).subrange(a, b))
}

/// `&s[a..b]` takes no panic: both ends are character boundaries of `s`'s encoding.
pub open spec fn byte_slice_ok(s: Seq<char>, a: int, b: int) -> bool {
    &&& a <= b
    &&& is_char_boundary(encode_utf8(s), a)
    &&& is_char_boundary(encode_utf8(s), b)
}

/// `&s[a..]` as a string, or `None` where that slice would panic.
pub fn byte_suffix(s: &str, a: usize) -> (r: Option<String>)
    ensures
        r is Some == is_char_boundary(encode_utf8(s@), a as int),
        r matches Some(t) ==> t@ == byte_slice(s@, a as int, encode_utf8(s@).len() as int),
{
    if !s.is_char_boundary(a) {
        return None;
    }
    let (_, rest) = s.split_at(a);
    proof {
        encode_utf8_decode_utf8(rest@);
    }
    Some(rest.to_owned())
}

/// `&s[a..b]` as a string, or `None` where that slice would panic.
pub fn byte_range(s: &str, a: usize, b: usize) -> (r: Option<String>)
    requires
        a < b,
    ensures
        r is Some == byte_slice_ok(s@, a as int, b as int),
        r matches Some(t) ==> t@ == byte_slice(s@, a as int, b as int),
{
    if !(s.is_char_boundary(a) && s.is_char_boundary(b)) {
        return None;
    }
    let ghost enc = encode_utf8(s@);
    let (left, _) = s.split_at(b);
    proof {
        encode_utf8_valid_utf8(s@);
        valid_utf8_split(enc, b as int);
        let lb = enc.subrange(0, b as int);
        if a > 0 {
            is_char_boundary_iff_not_is_continuation_byte(enc, a as int);
            is_char_boundary_iff_not_is_continuation_byte(lb, a as int);
        }
    }
    let (_, mid) = left.split_at(a);
    proof {
        encode_utf8_decode_utf8(mid@);
        assert(enc.subrange(0, b as int).subrange(a as int, b as int) =~= enc.subrange(a as int, b as int));
    }
    Some(mid.to_owned())
}


/// The part of a log line after its date (the characters from 25 on), as the date
/// remover gives it: lines of at most 25 bytes give the empty text, lines of more bytes
/// but at most 25 characters give the whole line.
pub open spec fn after_date(line: Seq<char>) -> Seq<char> {
    if encode_utf8(line).len() > 25 {
        if line.len() > 25 {
            line.skip(25)
        } else {
            line
        }
    } else {
        Seq::empty()
    }
}

/// The part of a log line after its date. On a line of more than 25 bytes the slice is
/// taken of the trimmed line, from the byte where the untrimmed line's 26th character
/// starts (or from 0) up to the untrimmed line's byte length. Where the trim removes
/// anything, the trimmed line is shorter than that end and the slice would run past it:
/// exactly those lines are excluded, and every other line is taken.
pub fn _remove_date_data(line: &str) -> (r: String)
    requires
        encode_utf8(line@).len() > 25 ==> trim(line@) == line@,
    ensures
        r@ == after_date(line@),
{
    let n = line.as_bytes().len();
    if n > 25 {
        let cs = chars_of(line);
        if cs.len() > 25 {
            let rest = char_window(&cs, 25, cs.len());
            assert(rest@ =~= line@.skip(25));
            string_from_chars(&rest)
        } else {
            line.to_owned()
        }
    } else {
        String::new()
    }
}

} // verus!

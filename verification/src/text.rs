//! Text: white space, trimming, splitting, shortening and numbers.
use vstd::prelude::*;

verus! {

/// `String::push` appends the given character.
pub assume_specification[ String::push ](s: &mut String, c: char)
    ensures
        final(s)@ == old(s)@.push(c),
;

/// The text that `String::from_utf8_lossy` makes of bytes that are not UTF-8.
pub uninterp spec fn patched_text(bytes: Seq<u8>) -> Seq<char>;

/// The text that bytes stand for. Where they are not UTF-8, U+FFFD takes the
/// place of what cannot be read.
pub open spec fn lossy_text(bytes: Seq<u8>) -> Seq<char> {
    if vstd::utf8::valid_utf8(bytes) {
        vstd::utf8::decode_utf8(bytes)
    } else {
        patched_text(bytes)
    }
}

/// `String::from_utf8_lossy` reads bytes as UTF-8. Bytes that are UTF-8 are
/// read as what they encode; of others it makes a text by putting U+FFFD in
/// the place of what cannot be read.
#[verifier::external_body]
pub(crate) fn from_utf8_lossy(bytes: &[u8]) -> (text: String)
    ensures
        vstd::utf8::valid_utf8(bytes@) ==> text@ == vstd::utf8::decode_utf8(bytes@),
        !vstd::utf8::valid_utf8(bytes@) ==> text@ == patched_text(bytes@),
{
    String::from_utf8_lossy(bytes).into_owned()
}

/// A text is read back from its UTF-8 form.
pub proof fn encoded_text_reads_back(s: Seq<char>)
    ensures
        lossy_text(vstd::utf8::encode_utf8(s)) == s,
{
    vstd::utf8::encode_utf8_valid_utf8(s);
    vstd::utf8::encode_utf8_decode_utf8(s);
}

/// The UTF-8 form of a text.
pub fn bytes_of(s: &str) -> (bytes: Vec<u8>)
    ensures
        bytes@ == vstd::utf8::encode_utf8(s@),
{
    s.as_bytes_vec()
}

/// The views of a sequence of strings.
pub open spec fn texts(v: Seq<String>) -> Seq<Seq<char>> {
    v.map_values(|s: String| s@)
}

/// The view of an optional string.
pub open spec fn opt_text(s: Option<String>) -> Option<Seq<char>> {
    match s {
        Some(s) => Some(s@),
        None => None,
    }
}

/// The views of a sequence of byte strings.
pub open spec fn byte_texts(v: Seq<Vec<u8>>) -> Seq<Seq<u8>> {
    v.map_values(|b: Vec<u8>| b@)
}

/// The UTF-8 forms of a sequence of texts.
pub open spec fn encoded(v: Seq<Seq<char>>) -> Seq<Seq<u8>> {
    v.map_values(|s: Seq<char>| vstd::utf8::encode_utf8(s))
}

/// The characters with the Unicode property `White_Space`.
pub open spec fn is_white(c: char) -> bool {
    let u = c as u32;
    ||| 0x09 <= u <= 0x0d
    ||| u == 0x20
    ||| u == 0x85
    ||| u == 0xa0
    ||| u == 0x1680
    ||| 0x2000 <= u <= 0x200a
    ||| u == 0x2028
    ||| u == 0x2029
    ||| u == 0x202f
    ||| u == 0x205f
    ||| u == 0x3000
}

/// Whether a character is white space.
pub fn is_whitespace(c: char) -> (r: bool)
    ensures
        r == is_white(c),
{
    let u: u32 = c as u32;
    (0x09 <= u && u <= 0x0d) || u == 0x20 || u == 0x85 || u == 0xa0 || u == 0x1680 || (0x2000 <= u
        && u <= 0x200a) || u == 0x2028 || u == 0x2029 || u == 0x202f || u == 0x205f || u == 0x3000
}

/// The characters of the Unicode category `Cc`.
pub open spec fn is_control_char(c: char) -> bool {
    let u = c as u32;
    u <= 0x1f || 0x7f <= u <= 0x9f
}

/// Whether a character is a control character.
pub fn is_control(c: char) -> (r: bool)
    ensures
        r == is_control_char(c),
{
    let u: u32 = c as u32;
    u <= 0x1f || (0x7f <= u && u <= 0x9f)
}

/// The characters of a string.
pub fn chars_of(s: &str) -> (v: Vec<char>)
    ensures
        v@ == s@,
{
    let mut v: Vec<char> = Vec::new();
    for c in it: s.chars()
        invariant
            it.seq() == s@,
            v@ =~= s@.take(it.index()),
    {
        v.push(c);
    }
    assert(s@.take(s@.len() as int) =~= s@);
    v
}

/// The string of the characters `from..to`.
pub fn string_of(chars: &Vec<char>, from: usize, to: usize) -> (s: String)
    requires
        from <= to <= chars@.len(),
    ensures
        s@ == chars@.subrange(from as int, to as int),
{
    let mut s = String::new();
    let mut i: usize = from;
    while i < to
        invariant
            from <= i <= to <= chars@.len(),
            s@ =~= chars@.subrange(from as int, i as int),
        decreases to - i,
    {
        s.push(chars[i]);
        i += 1;
    }
    s
}

/// Whether two strings hold the same text.
pub fn str_eq(a: &str, b: &str) -> (r: bool)
    ensures
        r == (a@ == b@),
{
    a.to_owned() == b.to_owned()
}

/// A text without the white space at its two ends.
pub open spec fn trimmed(s: Seq<char>) -> Seq<char>
    decreases s.len(),
{
    if s.len() == 0 {
        s
    } else if is_white(s.first()) {
        trimmed(s.drop_first())
    } else if is_white(s.last()) {
        trimmed(s.drop_last())
    } else {
        s
    }
}

/// Removes the white space at the two ends of a text.
pub fn trim(s: &str) -> (r: String)
    ensures
        r@ == trimmed(s@),
{
    let chars = chars_of(s);
    let mut lo: usize = 0;
    let mut hi: usize = chars.len();
    assert(chars@.subrange(0, hi as int) =~= s@);
    while lo < hi && is_whitespace(chars[lo])
        invariant
            lo <= hi == chars@.len(),
            trimmed(s@) == trimmed(chars@.subrange(lo as int, hi as int)),
        decreases hi - lo,
    {
        assert(chars@.subrange(lo as int, hi as int).drop_first() =~= chars@.subrange(
            lo + 1,
            hi as int,
        ));
        lo += 1;
    }
    while lo < hi && is_whitespace(chars[hi - 1])
        invariant
            lo <= hi <= chars@.len(),
            lo < hi ==> !is_white(chars@[lo as int]),
            trimmed(s@) == trimmed(chars@.subrange(lo as int, hi as int)),
        decreases hi - lo,
    {
        assert(chars@.subrange(lo as int, hi as int).drop_last() =~= chars@.subrange(
            lo as int,
            hi - 1,
        ));
        hi -= 1;
    }
    string_of(&chars, lo, hi)
}

/// A text without the `c`s at its end.
pub open spec fn without_end(s: Seq<char>, c: char) -> Seq<char>
    decreases s.len(),
{
    if s.len() > 0 && s.last() == c {
        without_end(s.drop_last(), c)
    } else {
        s
    }
}

/// Removes every `c` at the end of a text.
pub fn trim_end_matches(s: &str, c: char) -> (r: String)
    ensures
        r@ == without_end(s@, c),
{
    let chars = chars_of(s);
    let mut hi: usize = chars.len();
    assert(chars@.subrange(0, hi as int) =~= s@);
    while hi > 0 && chars[hi - 1] == c
        invariant
            hi <= chars@.len(),
            without_end(s@, c) == without_end(chars@.subrange(0, hi as int), c),
        decreases hi,
    {
        assert(chars@.subrange(0, hi as int).drop_last() =~= chars@.subrange(0, hi - 1));
        hi -= 1;
    }
    string_of(&chars, 0, hi)
}

/// The parts of a text between the `sep`s. There is always one more part than
/// there are `sep`s.
pub open spec fn parts(s: Seq<char>, sep: char) -> Seq<Seq<char>>
    decreases s.len(),
{
    if s.len() == 0 {
        seq![Seq::empty()]
    } else {
        let before = parts(s.drop_last(), sep);
        if s.last() == sep {
            before.push(Seq::empty())
        } else {
            before.drop_last().push(before.last().push(s.last()))
        }
    }
}

/// Splits a text at every `sep`.
pub fn split_on(s: &str, sep: char) -> (r: Vec<String>)
    ensures
        texts(r@) == parts(s@, sep),
        r@.len() >= 1,
{
    let chars = chars_of(s);
    let mut done: Vec<String> = Vec::new();
    let mut part = String::new();
    let mut i: usize = 0;
    assert(texts(done@).push(part@) =~= seq![Seq::<char>::empty()]);
    assert(chars@.take(0) =~= Seq::<char>::empty());
    while i < chars.len()
        invariant
            i <= chars@.len(),
            texts(done@).push(part@) =~= parts(chars@.take(i as int), sep),
        decreases chars.len() - i,
    {
        let ghost before = parts(chars@.take(i as int), sep);
        assert(chars@.take(i + 1).drop_last() =~= chars@.take(i as int));
        assert(before.drop_last() =~= texts(done@));
        if chars[i] == sep {
            let ghost old_done = done@;
            done.push(part);
            part = String::new();
            assert(texts(done@) =~= texts(old_done).push(before.last()));
        } else {
            part.push(chars[i]);
        }
        i += 1;
    }
    assert(chars@.take(chars@.len() as int) =~= s@);
    let ghost old_done = done@;
    done.push(part);
    assert(texts(done@) =~= texts(old_done).push(part@));
    done
}

/// The last of a row of texts that is not empty.
pub open spec fn last_filled(s: Seq<Seq<char>>) -> Option<Seq<char>>
    decreases s.len(),
{
    if s.len() == 0 {
        None
    } else if s.last().len() > 0 {
        Some(s.last())
    } else {
        last_filled(s.drop_last())
    }
}

/// The index of the last string that is not empty.
pub fn last_filled_index(v: &Vec<String>) -> (r: Option<usize>)
    ensures
        match r {
            Some(i) => i < v@.len() && last_filled(texts(v@)) == Some(v@[i as int]@),
            None => last_filled(texts(v@)) is None,
        },
{
    let mut n: usize = v.len();
    assert(texts(v@).take(n as int) =~= texts(v@));
    while n > 0
        invariant
            n <= v@.len(),
            last_filled(texts(v@)) == last_filled(texts(v@).take(n as int)),
        decreases n,
    {
        assert(texts(v@).take(n as int).last() == v@[n - 1]@);
        assert(texts(v@).take(n as int).drop_last() =~= texts(v@).take(n - 1));
        if !v[n - 1].as_str().is_empty() {
            return Some(n - 1);
        }
        n -= 1;
    }
    None
}

/// The first of a row of texts that is not blank, trimmed; empty if all are.
pub open spec fn first_filled_trimmed(s: Seq<Seq<char>>) -> Seq<char>
    decreases s.len(),
{
    if s.len() == 0 {
        Seq::empty()
    } else if trimmed(s.first()).len() > 0 {
        trimmed(s.first())
    } else {
        first_filled_trimmed(s.drop_first())
    }
}

/// The first line of a text that is not blank, trimmed; empty if all are.
pub open spec fn first_line_of(s: Seq<char>) -> Seq<char> {
    first_filled_trimmed(parts(s, '\n'))
}

/// Finds the first line that is not blank, and trims it.
pub fn first_line(s: &str) -> (r: String)
    ensures
        r@ == first_line_of(s@),
{
    let lines = split_on(s, '\n');
    let mut i: usize = 0;
    assert(texts(lines@).skip(0) =~= texts(lines@));
    while i < lines.len()
        invariant
            i <= lines@.len(),
            texts(lines@) == parts(s@, '\n'),
            first_filled_trimmed(texts(lines@)) == first_filled_trimmed(
                texts(lines@).skip(i as int),
            ),
        decreases lines.len() - i,
    {
        assert(texts(lines@).skip(i as int).first() == lines@[i as int]@);
        assert(texts(lines@).skip(i as int).drop_first() =~= texts(lines@).skip(i + 1));
        let line = trim(&lines[i]);
        if !line.as_str().is_empty() {
            return line;
        }
        i += 1;
    }
    String::new()
}

/// A text cut to at most `max` characters, the last of which is then an
/// ellipsis. An ellipsis alone stands for any text that does not fit into
/// less than two characters.
pub open spec fn elided(s: Seq<char>, max: nat) -> Seq<char> {
    if s.len() <= max {
        s
    } else if max <= 1 {
        seq!['\u{2026}']
    } else {
        s.take(max - 1).push('\u{2026}')
    }
}

/// Shortens a text to at most `max_chars` characters (but to one at least).
pub fn elide(s: &str, max_chars: usize) -> (r: String)
    ensures
        r@ == elided(s@, max_chars as nat),
{
    let chars = chars_of(s);
    if chars.len() <= max_chars {
        s.to_owned()
    } else if max_chars <= 1 {
        let mut r = String::new();
        r.push('\u{2026}');
        assert(r@ =~= seq!['\u{2026}']);
        r
    } else {
        let mut r = string_of(&chars, 0, max_chars - 1);
        r.push('\u{2026}');
        assert(r@ =~= s@.take(max_chars - 1).push('\u{2026}'));
        r
    }
}

/// A shortened text fits. Shortening it again to as much or more changes
/// nothing, and shortening a text step by step is shortening it at once.
pub proof fn elided_fits(s: Seq<char>, m: nat, n: nat)
    requires
        m <= n,
    ensures
        elided(s, m).len() <= if m <= 1 { 1 } else { m },
        elided(elided(s, m), n) == elided(s, m),
        elided(elided(s, n), m) == elided(s, m),
{
    assert(elided(elided(s, n), m) =~= elided(s, m));
}

/// A decimal digit.
pub open spec fn digit(d: nat) -> char {
    (0x30 + d) as char
}

/// A number in decimal notation, without leading zeros.
pub open spec fn decimal(n: nat) -> Seq<char>
    decreases n,
{
    if n < 10 {
        seq![digit(n)]
    } else {
        decimal(n / 10).push(digit(n % 10))
    }
}

/// Appends a number in decimal notation.
pub fn push_decimal(out: &mut String, n: u64)
    ensures
        final(out)@ == old(out)@ + decimal(n as nat),
    decreases n,
{
    if n >= 10 {
        push_decimal(out, n / 10);
    }
    let d: u8 = 0x30 + (n % 10) as u8;
    out.push(d as char);
    assert(out@ =~= old(out)@ + decimal(n as nat));
}

/// The number that a row of decimal digits denotes.
pub open spec fn decimal_value(s: Seq<char>) -> nat
    decreases s.len(),
{
    if s.len() == 0 {
        0
    } else {
        decimal_value(s.drop_last()) * 10 + ((s.last() as u32 - 0x30) as nat)
    }
}

/// Decimal notation denotes the number that it was made of.
pub proof fn decimal_denotes(n: nat)
    ensures
        decimal_value(decimal(n)) == n,
        decimal(n).len() > 0,
    decreases n,
{
    reveal_with_fuel(decimal_value, 2);
    if n < 10 {
        assert(decimal(n).drop_last() =~= Seq::<char>::empty());
    } else {
        decimal_denotes(n / 10);
        assert(decimal(n).drop_last() =~= decimal(n / 10));
    }
}

/// `needle` occurs in `s`.
pub open spec fn occurs(s: Seq<char>, needle: Seq<char>) -> bool {
    exists|i: int|
        0 <= i && i + needle.len() <= s.len() && #[trigger] s.subrange(i, i + needle.len())
            == needle
}

/// Whether `needle` occurs in `s`.
pub fn contains(s: &str, needle: &str) -> (r: bool)
    ensures
        r == occurs(s@, needle@),
{
    let hay = chars_of(s);
    let pin = chars_of(needle);
    if pin.len() == 0 {
        assert(s@.subrange(0, 0int + needle@.len()) =~= needle@);
        return true;
    }
    if pin.len() > hay.len() {
        return false;
    }
    let last: usize = hay.len() - pin.len();
    let mut i: usize = 0;
    while i <= last
        invariant
            hay@ == s@,
            pin@ == needle@,
            last == hay.len() - pin.len(),
            pin@.len() > 0,
            i <= last + 1,
            forall|k: int|
                0 <= k < i ==> #[trigger] s@.subrange(k, k + needle@.len()) != needle@,
        decreases last + 1 - i,
    {
        let mut j: usize = 0;
        while j < pin.len() && hay[i + j] == pin[j]
            invariant
                hay@ == s@,
                pin@ == needle@,
                last == hay.len() - pin.len(),
                i <= last,
                j <= pin@.len(),
                forall|k: int| 0 <= k < j ==> hay@[i + k] == #[trigger] pin@[k],
            decreases pin.len() - j,
        {
            j += 1;
        }
        if j == pin.len() {
            assert(s@.subrange(i as int, i + needle@.len()) =~= needle@);
            return true;
        }
        assert(s@.subrange(i as int, i + needle@.len())[j as int] != needle@[j as int]);
        i += 1;
    }
    false
}

/// `t` stands in `s` from `i` on, with white space alone before and after it.
pub open spec fn stands_in_white(s: Seq<char>, t: Seq<char>, i: int) -> bool {
    &&& 0 <= i <= s.len() - t.len()
    &&& s.subrange(i, i + t.len()) == t
    &&& forall|k: int| 0 <= k < i ==> is_white(#[trigger] s[k])
    &&& forall|k: int| i + t.len() <= k < s.len() ==> is_white(#[trigger] s[k])
}

/// Trimming takes nothing but white space, and all of it, from the two ends:
/// what is left stands in the text as it was, with white space alone before
/// and after it, and neither begins nor ends with any.
pub proof fn trimming_takes_the_ends(s: Seq<char>)
    ensures
        exists|i: int| stands_in_white(s, trimmed(s), i),
        trimmed(s).len() > 0 ==> !is_white(trimmed(s).first()) && !is_white(trimmed(s).last()),
    decreases s.len(),
{
    let t = trimmed(s);
    if s.len() > 0 && is_white(s.first()) {
        let r = s.drop_first();
        trimming_takes_the_ends(r);
        let i = choose|i: int| stands_in_white(r, t, i);
        white_before(s, t, i);
    } else if s.len() > 0 && is_white(s.last()) {
        let r = s.drop_last();
        trimming_takes_the_ends(r);
        let i = choose|i: int| stands_in_white(r, t, i);
        white_after(s, t, i);
    } else {
        assert(s.subrange(0, 0int + t.len()) =~= t);
        assert(stands_in_white(s, t, 0));
    }
}

proof fn white_before(s: Seq<char>, t: Seq<char>, i: int)
    requires
        s.len() > 0,
        is_white(s.first()),
        stands_in_white(s.drop_first(), t, i),
    ensures
        stands_in_white(s, t, i + 1),
{
    let r = s.drop_first();
    let j = i + 1;
    assert(s.subrange(j, j + t.len()) =~= r.subrange(i, i + t.len()));
    assert forall|k: int| 0 <= k < j implies is_white(#[trigger] s[k]) by {
        if k > 0 {
            assert(is_white(r[k - 1]));
        }
    }
    assert forall|k: int| j + t.len() <= k < s.len() implies is_white(#[trigger] s[k]) by {
        assert(is_white(r[k - 1]));
    }
}

proof fn white_after(s: Seq<char>, t: Seq<char>, i: int)
    requires
        s.len() > 0,
        is_white(s.last()),
        stands_in_white(s.drop_last(), t, i),
    ensures
        stands_in_white(s, t, i),
{
    let r = s.drop_last();
    assert(s.subrange(i, i + t.len()) =~= r.subrange(i, i + t.len()));
    assert forall|k: int| 0 <= k < i implies is_white(#[trigger] s[k]) by {
        assert(is_white(r[k]));
    }
    assert forall|k: int| i + t.len() <= k < s.len() implies is_white(#[trigger] s[k]) by {
        if k < r.len() {
            assert(is_white(r[k]));
        }
    }
}

/// Every `c` at the end is taken off, and nothing else.
pub proof fn only_the_end_is_taken_off(s: Seq<char>, c: char)
    ensures
        ({
            let r = without_end(s, c);
            &&& r.len() <= s.len()
            &&& r == s.take(r.len() as int)
            &&& forall|k: int| r.len() <= k < s.len() ==> #[trigger] s[k] == c
            &&& r.len() > 0 ==> r.last() != c
        }),
    decreases s.len(),
{
    let r = without_end(s, c);
    if s.len() > 0 && s.last() == c {
        let front = s.drop_last();
        only_the_end_is_taken_off(front, c);
        assert(r =~= s.take(r.len() as int));
        assert forall|k: int| r.len() <= k < s.len() implies #[trigger] s[k] == c by {
            if k < front.len() {
                assert(front[k] == s[k]);
            }
        }
    } else {
        assert(s.take(s.len() as int) =~= s);
    }
}

/// Texts in a row, with a character between each two.
pub open spec fn woven(p: Seq<Seq<char>>, sep: char) -> Seq<char>
    decreases p.len(),
{
    if p.len() == 0 {
        Seq::empty()
    } else if p.len() == 1 {
        p[0]
    } else {
        woven(p.drop_last(), sep).push(sep) + p.last()
    }
}

/// Splitting loses nothing: the parts, put together again, are the text, and no
/// part holds a separator.
pub proof fn parts_weave_back(s: Seq<char>, sep: char)
    ensures
        parts(s, sep).len() >= 1,
        woven(parts(s, sep), sep) == s,
        forall|i: int, k: int|
            0 <= i < parts(s, sep).len() && 0 <= k < parts(s, sep)[i].len() ==> #[trigger] parts(
                s,
                sep,
            )[i][k] != sep,
    decreases s.len(),
{
    let p = parts(s, sep);
    if s.len() == 0 {
        assert(woven(p, sep) =~= s);
    } else {
        let front = s.drop_last();
        let before = parts(front, sep);
        parts_weave_back(front, sep);
        if s.last() == sep {
            assert(p.drop_last() =~= before);
            assert(woven(p, sep) =~= s);
        } else {
            assert(p.drop_last() =~= before.drop_last());
            if before.len() == 1 {
                assert(woven(p, sep) =~= s);
            } else {
                assert(woven(p, sep) =~= woven(before, sep).push(s.last()));
                assert(woven(p, sep) =~= s);
            }
        }
        assert forall|i: int, k: int|
            0 <= i < p.len() && 0 <= k < p[i].len() implies #[trigger] p[i][k] != sep by {
            if i < p.len() - 1 {
                assert(p[i] == before[i]);
                assert(before[i][k] != sep);
            } else if s.last() != sep && k < before.last().len() {
                assert(before[before.len() - 1][k] != sep);
            }
        }
    }
}

/// A text is split at a separator into the parts before it and the parts after
/// it.
pub proof fn parts_split_at_a_separator(a: Seq<char>, b: Seq<char>, sep: char)
    ensures
        parts(a.push(sep) + b, sep) == parts(a, sep) + parts(b, sep),
    decreases b.len(),
{
    let whole = a.push(sep) + b;
    if b.len() == 0 {
        assert(whole =~= a.push(sep));
        assert(whole.drop_last() =~= a);
        assert(parts(whole, sep) =~= parts(a, sep) + parts(b, sep));
    } else {
        parts_split_at_a_separator(a, b.drop_last(), sep);
        parts_weave_back(b.drop_last(), sep);
        assert(whole.drop_last() =~= a.push(sep) + b.drop_last());
        let front = parts(b.drop_last(), sep);
        assert((parts(a, sep) + front).last() == front.last());
        assert((parts(a, sep) + front).drop_last() =~= parts(a, sep) + front.drop_last());
        assert(parts(whole, sep) =~= parts(a, sep) + parts(b, sep));
    }
}

/// A text without a separator is its only part.
pub proof fn unseparated_text_is_one_part(s: Seq<char>, sep: char)
    requires
        forall|k: int| 0 <= k < s.len() ==> #[trigger] s[k] != sep,
    ensures
        parts(s, sep) == seq![s],
    decreases s.len(),
{
    if s.len() > 0 {
        let front = s.drop_last();
        assert forall|k: int| 0 <= k < front.len() implies #[trigger] front[k] != sep by {
            assert(s[k] != sep);
        }
        unseparated_text_is_one_part(front, sep);
        assert(s[s.len() - 1] != sep);
        assert(front.push(s.last()) =~= s);
        assert(parts(s, sep) =~= seq![s]);
    } else {
        assert(s =~= Seq::<char>::empty());
    }
}

/// The last text that is not empty is one of the row, and only empty ones come
/// after it. There is none only if all are empty.
pub proof fn last_filled_is_last(s: Seq<Seq<char>>)
    ensures
        match last_filled(s) {
            Some(t) => t.len() > 0 && exists|i: int|
                0 <= i < s.len() && #[trigger] s[i] == t && forall|j: int|
                    i < j < s.len() ==> (#[trigger] s[j]).len() == 0,
            None => forall|j: int| 0 <= j < s.len() ==> (#[trigger] s[j]).len() == 0,
        },
    decreases s.len(),
{
    if s.len() > 0 {
        let front = s.drop_last();
        if s.last().len() > 0 {
            assert(s[s.len() - 1] == s.last());
        } else {
            last_filled_is_last(front);
            match last_filled(s) {
                Some(t) => {
                    let i = choose|i: int|
                        0 <= i < front.len() && #[trigger] front[i] == t && forall|j: int|
                            i < j < front.len() ==> (#[trigger] front[j]).len() == 0;
                    assert(s[i] == t);
                    assert forall|j: int| i < j < s.len() implies (#[trigger] s[j]).len() == 0 by {
                        if j < front.len() {
                            assert(front[j] == s[j]);
                        }
                    }
                },
                None => {
                    assert forall|j: int| 0 <= j < s.len() implies (#[trigger] s[j]).len() == 0 by {
                        if j < front.len() {
                            assert(front[j] == s[j]);
                        }
                    }
                },
            }
        }
    }
}

/// The first line that is not blank is found line by line: a text of one line
/// gives that line, trimmed; of a text of more, the first line counts unless
/// it is blank, and the rest counts then.
pub proof fn first_line_is_first(line: Seq<char>, rest: Seq<char>)
    requires
        forall|k: int| 0 <= k < line.len() ==> #[trigger] line[k] != '\n',
    ensures
        first_line_of(line) == trimmed(line),
        first_line_of(line.push('\n') + rest) == if trimmed(line).len() > 0 {
            trimmed(line)
        } else {
            first_line_of(rest)
        },
{
    unseparated_text_is_one_part(line, '\n');
    parts_split_at_a_separator(line, rest, '\n');
    let p = parts(line.push('\n') + rest, '\n');
    assert(p.first() == line);
    assert(p.drop_first() =~= parts(rest, '\n'));
    let one = seq![line];
    assert(one.drop_first() =~= Seq::<Seq<char>>::empty());
    assert(first_filled_trimmed(one.drop_first()) =~= Seq::<char>::empty());
    if trimmed(line).len() == 0 {
        assert(trimmed(line) =~= Seq::<char>::empty());
    }
}

/// A text that fits is shown whole. Of one that does not, as much of its
/// beginning is shown as there is room for beside the ellipsis at the end.
pub proof fn elided_keeps_the_beginning(s: Seq<char>, max: nat)
    ensures
        s.len() <= max ==> elided(s, max) == s,
        s.len() > max >= 1 ==> {
            let r = elided(s, max);
            &&& r.len() == max
            &&& r.last() == '\u{2026}'
            &&& r.drop_last() == s.take(max - 1)
        },
        s.len() > max == 0 ==> elided(s, max) == seq!['\u{2026}'],
{
    if s.len() > max && max >= 1 {
        assert(elided(s, max).drop_last() =~= s.take(max - 1));
    }
}

/// Decimal notation: the digits of a number are those of its tenth and one
/// more, which is between `0` and `9`; a number below ten is one digit, and no
/// other begins with `0`.
pub proof fn decimal_digits(n: nat, d: nat)
    requires
        d < 10,
    ensures
        decimal(d) == seq![('0' as u32 + d) as char],
        n > 0 ==> decimal(10 * n + d) == decimal(n).push(('0' as u32 + d) as char),
        n > 0 ==> decimal(n).first() != '0',
        forall|k: int|
            0 <= k < decimal(n).len() ==> '0' as u32 <= #[trigger] decimal(n)[k] as u32 <= '9' as u32,
    decreases n,
{
    if n >= 10 {
        decimal_digits(n / 10, n % 10);
        assert(decimal(n) == decimal(n / 10).push(digit(n % 10)));
        decimal_denotes(n / 10);
        assert(decimal(n).first() == decimal(n / 10).first());
        assert forall|k: int| 0 <= k < decimal(n).len() implies '0' as u32 <= #[trigger] decimal(
            n,
        )[k] as u32 <= '9' as u32 by {
            if k < decimal(n / 10).len() {
                assert(decimal(n)[k] == decimal(n / 10)[k]);
            }
        }
    }
    if n > 0 {
        assert((10 * n + d) / 10 == n);
        assert((10 * n + d) % 10 == d);
    }
}

/// A text occurs wherever it stands among other text, and it occurs only in
/// texts of which it is a part.
pub proof fn a_part_occurs(before: Seq<char>, part: Seq<char>, after: Seq<char>, s: Seq<char>)
    ensures
        occurs(before + part + after, part),
        occurs(s, part) ==> exists|i: int|
            #![trigger s.take(i)]
            0 <= i <= s.len() - part.len() && s.take(i) + part + s.skip(i + part.len()) == s,
{
    let whole = before + part + after;
    let i = before.len() as int;
    assert(whole.subrange(i, i + part.len()) =~= part);
    if occurs(s, part) {
        let i = choose|i: int|
            0 <= i && i + part.len() <= s.len() && #[trigger] s.subrange(i, i + part.len()) == part;
        assert(s.take(i) + s.subrange(i, i + part.len()) + s.skip(i + part.len()) =~= s);
    }
}

/// A trimmed text stays as it is when it is trimmed again.
pub proof fn trimming_once_is_enough(s: Seq<char>)
    ensures
        trimmed(trimmed(s)) == trimmed(s),
{
    trimming_takes_the_ends(s);
}

/// A text of separators alone is split into parts that are all empty, one more
/// than there are separators.
pub proof fn separators_alone_hold_nothing(s: Seq<char>, sep: char)
    requires
        forall|k: int| 0 <= k < s.len() ==> #[trigger] s[k] == sep,
    ensures
        parts(s, sep).len() == s.len() + 1,
        forall|i: int| 0 <= i < parts(s, sep).len() ==> (#[trigger] parts(s, sep)[i]).len() == 0,
    decreases s.len(),
{
    if s.len() > 0 {
        let front = s.drop_last();
        assert forall|k: int| 0 <= k < front.len() implies #[trigger] front[k] == sep by {
            assert(front[k] == s[k]);
        }
        separators_alone_hold_nothing(front, sep);
        assert(s[s.len() - 1] == sep);
    }
}

} // verus!

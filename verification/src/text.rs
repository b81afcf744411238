//! Text primitives over character sequences.
//!
//! Strings are viewed as sequences of characters. Every operation is stated
//! over those sequences, so callers never reason about UTF-8 offsets.
use vstd::prelude::*;

verus! {

/// `String::push`: the character is appended to the end of the string.
pub assume_specification[ std::string::String::push ](s: &mut std::string::String, c: char)
    ensures
        final(s)@ == old(s)@.push(c),
;

/// The characters of a string slice, in order.
pub fn to_chars(s: &str) -> (r: Vec<char>)
    ensures
        r@ == s@,
{
    let mut out: Vec<char> = Vec::new();
    for c in it: s.chars()
        invariant
            out@ == it.seq().take(it.index()),
            it.seq() == s@,
    {
        out.push(c);
    }
    out
}

/// The string made of the characters `chars[from..to]`.
pub fn from_range(chars: &Vec<char>, from: usize, to: usize) -> (r: String)
    requires
        from <= to <= chars@.len(),
    ensures
        r@ == chars@.subrange(from as int, to as int),
{
    let mut out: String = String::new();
    let mut i: usize = from;
    while i < to
        invariant
            from <= i <= to <= chars@.len(),
            out@ == chars@.subrange(from as int, i as int),
        decreases to - i,
    {
        out.push(chars[i]);
        assert(chars@.subrange(from as int, i + 1) =~= chars@.subrange(from as int, i as int).push(
            chars@[i as int],
        ));
        i = i + 1;
    }
    out
}

/// Whether two strings hold the same characters.
pub fn str_eq(a: &str, b: &str) -> (r: bool)
    ensures
        r == (a@ == b@),
{
    let x = to_chars(a);
    let y = to_chars(b);
    chars_eq(&x, &y)
}

/// Whether two character vectors are equal.
pub fn chars_eq(x: &Vec<char>, y: &Vec<char>) -> (r: bool)
    ensures
        r == (x@ == y@),
{
    if x.len() != y.len() {
        return false;
    }
    let mut i: usize = 0;
    while i < x.len()
        invariant
            i <= x@.len(),
            x@.len() == y@.len(),
            forall|j: int| 0 <= j < i ==> x@[j] == y@[j],
        decreases x.len() - i,
    {
        if x[i] != y[i] {
            return false;
        }
        i = i + 1;
    }
    assert(x@ =~= y@);
    true
}

// ---------------------------------------------------------------------------
// Character classes
// ---------------------------------------------------------------------------

/// Whether `c` has the Unicode `White_Space` property.
pub open spec fn is_white(c: char) -> bool {
    ||| '\u{9}' <= c <= '\u{d}'
    ||| c == '\u{20}'
    ||| c == '\u{85}'
    ||| c == '\u{a0}'
    ||| c == '\u{1680}'
    ||| '\u{2000}' <= c <= '\u{200a}'
    ||| c == '\u{2028}'
    ||| c == '\u{2029}'
    ||| c == '\u{202f}'
    ||| c == '\u{205f}'
    ||| c == '\u{3000}'
}

/// Decides [`is_white`].
pub fn white(c: char) -> (r: bool)
    ensures
        r == is_white(c),
{
    ('\u{9}' <= c && c <= '\u{d}') || c == '\u{20}' || c == '\u{85}' || c == '\u{a0}' || c
        == '\u{1680}' || ('\u{2000}' <= c && c <= '\u{200a}') || c == '\u{2028}' || c == '\u{2029}'
        || c == '\u{202f}' || c == '\u{205f}' || c == '\u{3000}'
}

/// Whether `c` is one of the ten ASCII digits.
pub open spec fn is_digit(c: char) -> bool {
    '0' <= c <= '9'
}

/// Decides [`is_digit`].
pub fn digit(c: char) -> (r: bool)
    ensures
        r == is_digit(c),
{
    '0' <= c && c <= '9'
}

/// Whether every character of `s` is an ASCII digit.
pub open spec fn all_digits(s: Seq<char>) -> bool {
    forall|i: int| 0 <= i < s.len() ==> is_digit(#[trigger] s[i])
}

/// Decides [`all_digits`] of `chars[from..]`.
pub fn digits_from(chars: &Vec<char>, from: usize) -> (r: bool)
    requires
        from <= chars@.len(),
    ensures
        r == all_digits(chars@.skip(from as int)),
{
    let mut i: usize = from;
    while i < chars.len()
        invariant
            from <= i <= chars@.len(),
            forall|j: int| from <= j < i ==> is_digit(#[trigger] chars@[j]),
        decreases chars.len() - i,
    {
        if !digit(chars[i]) {
            assert(!is_digit(chars@.skip(from as int)[i - from]));
            return false;
        }
        i = i + 1;
    }
    true
}

/// Whether `c` is an ASCII letter.
pub open spec fn is_letter(c: char) -> bool {
    'a' <= c <= 'z' || 'A' <= c <= 'Z'
}

/// Decides [`is_letter`].
pub fn letter(c: char) -> (r: bool)
    ensures
        r == is_letter(c),
{
    ('a' <= c && c <= 'z') || ('A' <= c && c <= 'Z')
}

/// The ASCII lower-case form of `c`; other characters stay as they are.
pub open spec fn lower(c: char) -> char {
    if 'A' <= c <= 'Z' {
        (c as u8 + 32) as char
    } else {
        c
    }
}

/// Computes [`lower`].
pub fn lower_char(c: char) -> (r: char)
    ensures
        r == lower(c),
{
    if 'A' <= c && c <= 'Z' {
        (c as u8 + 32) as char
    } else {
        c
    }
}

/// ASCII lower-casing, character by character.
pub open spec fn lowercase(s: Seq<char>) -> Seq<char> {
    s.map_values(|c: char| lower(c))
}

/// Computes [`lowercase`].
pub fn to_lower(s: &str) -> (r: String)
    ensures
        r@ == lowercase(s@),
{
    let chars = to_chars(s);
    let mut out: String = String::new();
    let mut i: usize = 0;
    while i < chars.len()
        invariant
            i <= chars@.len(),
            chars@ == s@,
            out@ == lowercase(s@.take(i as int)),
        decreases chars.len() - i,
    {
        out.push(lower_char(chars[i]));
        assert(lowercase(s@.take(i + 1)) =~= lowercase(s@.take(i as int)).push(lower(s@[i as int])));
        i = i + 1;
    }
    assert(s@.take(i as int) =~= s@);
    out
}

/// Whether two strings are equal up to the case of ASCII letters.
pub fn eq_ignore_case(a: &str, b: &str) -> (r: bool)
    ensures
        r == (lowercase(a@) == lowercase(b@)),
{
    let x = to_lower(a);
    let y = to_lower(b);
    str_eq(&x, &y)
}

// ---------------------------------------------------------------------------
// Trimming
// ---------------------------------------------------------------------------

/// `s` without its leading white space.
pub open spec fn trim_start(s: Seq<char>) -> Seq<char>
    decreases s.len(),
{
    if s.len() > 0 && is_white(s[0]) {
        trim_start(s.skip(1))
    } else {
        s
    }
}

/// `s` without its trailing white space.
pub open spec fn trim_end(s: Seq<char>) -> Seq<char>
    decreases s.len(),
{
    if s.len() > 0 && is_white(s.last()) {
        trim_end(s.drop_last())
    } else {
        s
    }
}

/// `s` without white space at either end.
pub open spec fn trimmed(s: Seq<char>) -> Seq<char> {
    trim_end(trim_start(s))
}

/// Computes [`trimmed`].
pub fn trim(s: &str) -> (r: String)
    ensures
        r@ == trimmed(s@),
{
    let chars = to_chars(s);
    let mut lo: usize = 0;
    assert(s@.skip(0) =~= s@);
    while lo < chars.len() && white(chars[lo])
        invariant
            lo <= chars@.len(),
            chars@ == s@,
            trim_start(s@) == trim_start(s@.skip(lo as int)),
        decreases chars.len() - lo,
    {
        assert(s@.skip(lo as int).skip(1) =~= s@.skip(lo + 1));
        lo = lo + 1;
    }
    assert(trim_start(s@) == s@.skip(lo as int));
    let mut hi: usize = chars.len();
    assert(s@.skip(lo as int) =~= s@.subrange(lo as int, hi as int));
    while hi > lo && white(chars[hi - 1])
        invariant
            lo <= hi <= chars@.len(),
            chars@ == s@,
            trimmed(s@) == trim_end(s@.subrange(lo as int, hi as int)),
        decreases hi,
    {
        assert(s@.subrange(lo as int, hi as int).drop_last() =~= s@.subrange(lo as int, hi - 1));
        hi = hi - 1;
    }
    from_range(&chars, lo, hi)
}

/// A trimmed text is empty or has no white space at either end.
pub proof fn lemma_trimmed_ends(s: Seq<char>)
    ensures
        trimmed(s).len() > 0 ==> !is_white(trimmed(s)[0]) && !is_white(trimmed(s).last()),
{
    lemma_trim_start_first(s);
    lemma_trim_end_last(trim_start(s));
}

/// What is left of a text without its leading white space begins with another
/// character.
proof fn lemma_trim_start_first(s: Seq<char>)
    ensures
        trim_start(s).len() > 0 ==> !is_white(trim_start(s)[0]),
    decreases s.len(),
{
    if s.len() > 0 && is_white(s[0]) {
        lemma_trim_start_first(s.skip(1));
    }
}

/// What is left of a text without its trailing white space begins as the text
/// does and ends with another character.
proof fn lemma_trim_end_last(s: Seq<char>)
    ensures
        trim_end(s).len() > 0 ==> !is_white(trim_end(s).last()) && trim_end(s)[0] == s[0],
    decreases s.len(),
{
    if s.len() > 0 && is_white(s.last()) {
        lemma_trim_end_last(s.drop_last());
    }
}

// ---------------------------------------------------------------------------
// Searching and splitting
// ---------------------------------------------------------------------------

/// Whether `s` starts with `prefix`.
pub open spec fn has_prefix(s: Seq<char>, prefix: Seq<char>) -> bool {
    prefix.len() <= s.len() && s.take(prefix.len() as int) == prefix
}

/// Decides [`has_prefix`] of `chars[from..]`.
pub fn prefix_at(chars: &Vec<char>, from: usize, prefix: &Vec<char>) -> (r: bool)
    requires
        from <= chars@.len(),
    ensures
        r == has_prefix(chars@.skip(from as int), prefix@),
{
    if prefix.len() > chars.len() - from {
        return false;
    }
    let mut i: usize = 0;
    while i < prefix.len()
        invariant
            i <= prefix@.len(),
            from + prefix@.len() <= chars.len(),
            forall|j: int| 0 <= j < i ==> #[trigger] prefix@[j] == chars@[from + j],
        decreases prefix.len() - i,
    {
        if chars[from + i] != prefix[i] {
            assert(chars@.skip(from as int).take(prefix@.len() as int)[i as int] != prefix@[i as int]);
            return false;
        }
        i = i + 1;
    }
    assert(chars@.skip(from as int).take(prefix@.len() as int) =~= prefix@);
    true
}

/// Decides [`has_prefix`].
pub fn starts_with(s: &str, prefix: &str) -> (r: bool)
    ensures
        r == has_prefix(s@, prefix@),
{
    let chars = to_chars(s);
    let head = to_chars(prefix);
    assert(s@.skip(0) =~= s@);
    prefix_at(&chars, 0, &head)
}

/// The least index at which `pat` occurs in `s`.
pub open spec fn find(s: Seq<char>, pat: Seq<char>) -> Option<int>
    decreases s.len(),
{
    if has_prefix(s, pat) {
        Some(0)
    } else if s.len() == 0 {
        None
    } else {
        match find(s.skip(1), pat) {
            Some(i) => Some(i + 1),
            None => None,
        }
    }
}

/// Whether `pat` occurs in `s`.
pub open spec fn occurs(s: Seq<char>, pat: Seq<char>) -> bool {
    find(s, pat) is Some
}

/// Searches for `pat` in `chars[from..]`; the index found is absolute.
pub fn find_from(chars: &Vec<char>, from: usize, pat: &Vec<char>) -> (r: Option<usize>)
    requires
        from <= chars@.len(),
    ensures
        match r {
            Some(i) => {
                &&& find(chars@.skip(from as int), pat@) == Some(i - from)
                &&& from <= i
                &&& i + pat@.len() <= chars.len()
            },
            None => find(chars@.skip(from as int), pat@) is None,
        },
{
    let mut i: usize = from;
    while !prefix_at(chars, i, pat)
        invariant
            from <= i <= chars@.len(),
            match find(chars@.skip(i as int), pat@) {
                Some(k) => find(chars@.skip(from as int), pat@) == Some(k + i - from),
                None => find(chars@.skip(from as int), pat@) is None,
            },
        decreases chars.len() - i,
    {
        if i == chars.len() {
            return None;
        }
        assert(chars@.skip(i as int).skip(1) =~= chars@.skip(i + 1));
        i = i + 1;
    }
    Some(i)
}

/// Decides [`occurs`].
pub fn contains(s: &str, pat: &str) -> (r: bool)
    ensures
        r == occurs(s@, pat@),
{
    let chars = to_chars(s);
    let needle = to_chars(pat);
    assert(s@.skip(0) =~= s@);
    find_from(&chars, 0, &needle).is_some()
}

/// The index at which `pat` was found lies inside `s`, with room for `pat`.
pub proof fn lemma_find_bounds(s: Seq<char>, pat: Seq<char>)
    ensures
        find(s, pat) matches Some(i) ==> 0 <= i && i + pat.len() <= s.len() && s.subrange(
            i,
            i + pat.len(),
        ) == pat,
    decreases s.len(),
{
    if has_prefix(s, pat) {
        assert(s.subrange(0, pat.len() as int) =~= s.take(pat.len() as int));
    } else if s.len() > 0 {
        lemma_find_bounds(s.skip(1), pat);
        if let Some(i) = find(s.skip(1), pat) {
            assert(s.skip(1).subrange(i, i + pat.len()) =~= s.subrange(i + 1, i + 1 + pat.len()));
        }
    }
}

/// The pieces of `s` between successive occurrences of the non-empty
/// separator `sep`, found from left to right.
pub open spec fn split(s: Seq<char>, sep: Seq<char>) -> Seq<Seq<char>>
    decreases s.len(),
{
    match find(s, sep) {
        Some(i) => if 0 <= i && 0 < sep.len() && i + sep.len() <= s.len() {
            seq![s.take(i)] + split(s.skip(i + sep.len()), sep)
        } else {
            seq![s]
        },
        None => seq![s],
    }
}

/// Computes [`split`].
pub fn split_on(s: &str, sep: &str) -> (r: Vec<String>)
    requires
        sep@.len() > 0,
    ensures
        r.deep_view() == split(s@, sep@),
{
    let chars = to_chars(s);
    let pat = to_chars(sep);
    let mut out: Vec<String> = Vec::new();
    let mut pos: usize = 0;
    assert(s@.skip(0) =~= s@);
    assert(out.deep_view() =~= Seq::<Seq<char>>::empty());
    assert(out.deep_view() + split(s@, sep@) =~= split(s@, sep@));
    loop
        invariant
            pos <= chars@.len(),
            chars@ == s@,
            pat@ == sep@,
            sep@.len() > 0,
            out.deep_view() + split(s@.skip(pos as int), sep@) == split(s@, sep@),
        decreases chars.len() - pos,
    {
        let ghost before = out.deep_view();
        match find_from(&chars, pos, &pat) {
            Some(i) => {
                let piece = from_range(&chars, pos, i);
                assert(piece@ =~= s@.skip(pos as int).take(i - pos));
                out.push(piece);
                assert(out.deep_view() =~= before.push(piece@));
                assert(s@.skip(pos as int).skip(i - pos + sep@.len()) =~= s@.skip(
                    i + sep@.len(),
                ));
                let rest = i + pat.len();
                assert(split(s@.skip(pos as int), sep@) == seq![piece@] + split(
                    s@.skip(rest as int),
                    sep@,
                ));
                assert(out.deep_view() + split(s@.skip(rest as int), sep@) =~= before + split(
                    s@.skip(pos as int),
                    sep@,
                ));
                pos = rest;
            },
            None => {
                let piece = from_range(&chars, pos, chars.len());
                assert(piece@ =~= s@.skip(pos as int));
                out.push(piece);
                assert(out.deep_view() =~= before + seq![piece@]);
                return out;
            },
        }
    }
}

/// The parts of `s` before and after the first occurrence of `sep`.
pub open spec fn split_first(s: Seq<char>, sep: Seq<char>) -> Option<(Seq<char>, Seq<char>)> {
    match find(s, sep) {
        Some(i) => Some((s.take(i), s.skip(i + sep.len()))),
        None => None,
    }
}

/// Computes [`split_first`].
pub fn split_once(s: &str, sep: &str) -> (r: Option<(String, String)>)
    ensures
        match r {
            Some(parts) => split_first(s@, sep@) == Some((parts.0@, parts.1@)),
            None => split_first(s@, sep@) is None,
        },
{
    let chars = to_chars(s);
    let pat = to_chars(sep);
    assert(s@.skip(0) =~= s@);
    match find_from(&chars, 0, &pat) {
        Some(i) => {
            let head = from_range(&chars, 0, i);
            let tail = from_range(&chars, i + pat.len(), chars.len());
            assert(head@ =~= s@.take(i as int));
            assert(tail@ =~= s@.skip(i + sep@.len()));
            Some((head, tail))
        },
        None => None,
    }
}

/// The lines of a text: the pieces ended by a line feed, each without its line
/// feed and without one carriage return in front of it, and then whatever
/// follows the last line feed, unless that is empty.
pub open spec fn lines(s: Seq<char>) -> Seq<Seq<char>> {
    let pieces = split(s, seq!['\n']);
    let ended = pieces.drop_last().map_values(|line: Seq<char>| without_cr(line));
    if pieces.last().len() == 0 {
        ended
    } else {
        ended.push(pieces.last())
    }
}

/// `line` without one trailing carriage return.
pub open spec fn without_cr(line: Seq<char>) -> Seq<char> {
    if line.len() > 0 && line.last() == '\r' {
        line.drop_last()
    } else {
        line
    }
}

/// A split text has at least one piece.
pub proof fn lemma_split_nonempty(s: Seq<char>, sep: Seq<char>)
    ensures
        split(s, sep).len() > 0,
{
}

/// Computes [`lines`].
pub fn lines_of(s: &str) -> (r: Vec<String>)
    ensures
        r.deep_view() == lines(s@),
{
    proof {
        reveal_strlit("\n");
        assert("\n"@ =~= seq!['\n']);
        lemma_split_nonempty(s@, seq!['\n']);
    }
    let pieces = split_on(s, "\n");
    let ghost all = pieces.deep_view();
    let mut out: Vec<String> = Vec::new();
    let mut i: usize = 0;
    assert(out.deep_view() =~= Seq::<Seq<char>>::empty());
    while i < pieces.len() - 1
        invariant
            all == pieces.deep_view(),
            0 <= i < pieces.len(),
            out.deep_view() =~= all.take(i as int).map_values(|line: Seq<char>| without_cr(line)),
        decreases pieces.len() - i,
    {
        let line = to_chars(&pieces[i]);
        assert(all[i as int] == line@);
        let n = line.len();
        let piece = if n > 0 && line[n - 1] == '\r' {
            from_range(&line, 0, n - 1)
        } else {
            from_range(&line, 0, n)
        };
        assert(piece@ =~= without_cr(line@));
        let ghost before = out.deep_view();
        out.push(piece);
        assert(out.deep_view() =~= before.push(piece@));
        i = i + 1;
    }
    assert(all.take(i as int) =~= all.drop_last());
    assert(all.last() == pieces@[i as int]@);
    if pieces[i].as_str().is_empty() {
        return out;
    }
    let ghost before = out.deep_view();
    let last = pieces[i].clone();
    out.push(last);
    assert(out.deep_view() =~= before.push(all.last()));
    out
}

/// The pieces put together with `sep` between neighbours.
pub open spec fn joined(parts: Seq<Seq<char>>, sep: Seq<char>) -> Seq<char>
    decreases parts.len(),
{
    if parts.len() == 0 {
        Seq::empty()
    } else if parts.len() == 1 {
        parts[0]
    } else {
        joined(parts.drop_last(), sep) + sep + parts.last()
    }
}

/// Computes [`joined`].
pub fn join(parts: &Vec<String>, sep: &str) -> (r: String)
    ensures
        r@ == joined(parts.deep_view(), sep@),
{
    let mut out: String = String::new();
    let ghost all = parts.deep_view();
    let mut i: usize = 0;
    assert(all.take(0) =~= Seq::<Seq<char>>::empty());
    while i < parts.len()
        invariant
            i <= parts@.len(),
            all == parts.deep_view(),
            out@ == joined(all.take(i as int), sep@),
        decreases parts.len() - i,
    {
        if i > 0 {
            out.append(sep);
        }
        out.append(&parts[i]);
        assert(all.take(i + 1).drop_last() =~= all.take(i as int));
        assert(all.take(i + 1).last() == parts@[i as int]@);
        if i == 0 {
            assert(out@ =~= parts@[0]@);
        }
        i = i + 1;
    }
    assert(all.take(i as int) =~= all);
    out
}

// ---------------------------------------------------------------------------
// Numbers
// ---------------------------------------------------------------------------

/// The digit that stands for `d`, which is below ten.
pub open spec fn digit_char(d: nat) -> char {
    (d + 48) as char
}

/// The decimal notation of `n`, without leading zeros.
pub open spec fn decimal(n: nat) -> Seq<char>
    decreases n,
{
    if n < 10 {
        seq![digit_char(n)]
    } else {
        decimal(n / 10).push(digit_char(n % 10))
    }
}

/// Computes [`decimal`].
pub fn decimal_of(n: u64) -> (r: String)
    ensures
        r@ == decimal(n as nat),
    decreases n,
{
    if n < 10 {
        let mut out: String = String::new();
        out.push((n as u8 + 48) as char);
        assert(out@ =~= seq![digit_char(n as nat)]);
        out
    } else {
        let mut out = decimal_of(n / 10);
        out.push(((n % 10) as u8 + 48) as char);
        out
    }
}

/// The number that a digit stands for; other characters count as zero.
pub open spec fn digit_value(c: char) -> nat {
    if is_digit(c) {
        (c as nat - 48) as nat
    } else {
        0
    }
}

/// The number that a run of digits stands for.
pub open spec fn digits_value(s: Seq<char>) -> nat
    decreases s.len(),
{
    if s.len() == 0 {
        0
    } else {
        digits_value(s.drop_last()) * 10 + digit_value(s.last())
    }
}

/// Reading more digits never makes the number smaller.
pub proof fn lemma_digits_value_grows(s: Seq<char>, i: int)
    requires
        0 <= i <= s.len(),
    ensures
        digits_value(s.take(i)) <= digits_value(s),
    decreases s.len() - i,
{
    if i < s.len() {
        lemma_digits_value_grows(s, i + 1);
        assert(s.take(i + 1).drop_last() =~= s.take(i));
    } else {
        assert(s.take(i) =~= s);
    }
}

/// The digits of a number, after an optional plus sign.
pub open spec fn unsigned_body(s: Seq<char>) -> Seq<char> {
    if s.len() > 0 && s[0] == '+' {
        s.skip(1)
    } else {
        s
    }
}

/// The unsigned 32-bit number that `s` denotes: one or more ASCII digits after
/// an optional plus sign, within range.
pub open spec fn parsed_u32(s: Seq<char>) -> Option<u32> {
    let body = unsigned_body(s);
    if body.len() > 0 && all_digits(body) && digits_value(body) <= u32::MAX {
        Some(digits_value(body) as u32)
    } else {
        None
    }
}

/// Computes [`parsed_u32`].
pub fn parse_u32(s: &str) -> (r: Option<u32>)
    ensures
        r == parsed_u32(s@),
{
    let chars = to_chars(s);
    let start: usize = if chars.len() > 0 && chars[0] == '+' {
        1
    } else {
        0
    };
    let ghost body = unsigned_body(s@);
    assert(body =~= s@.skip(start as int));
    if start == chars.len() {
        return None;
    }
    if !digits_from(&chars, start) {
        return None;
    }
    let mut value: u64 = 0;
    let mut i: usize = start;
    assert(body.take(0) =~= Seq::<char>::empty());
    while i < chars.len()
        invariant
            start <= i <= chars@.len(),
            chars@ == s@,
            body == s@.skip(start as int),
            all_digits(body),
            value == digits_value(body.take(i - start)),
            value <= u32::MAX,
            body == unsigned_body(s@),
        decreases chars.len() - i,
    {
        let c = chars[i];
        assert(body[i - start] == c);
        let d: u64 = (c as u32 - 48) as u64;
        assert(body.take(i - start + 1).drop_last() =~= body.take(i - start));
        assert(body.take(i - start + 1).last() == c);
        value = value * 10 + d;
        if value > u32::MAX as u64 {
            proof {
                lemma_digits_value_grows(body, i - start + 1);
            }
            return None;
        }
        i = i + 1;
    }
    assert(body.take(i - start) =~= body);
    Some(value as u32)
}

/// Whether `a` comes before `b` in the order of their characters, or is `b`.
pub open spec fn comes_first(a: Seq<char>, b: Seq<char>) -> bool
    decreases a.len(),
{
    if a.len() == 0 {
        true
    } else if b.len() == 0 {
        false
    } else if a[0] == b[0] {
        comes_first(a.skip(1), b.skip(1))
    } else {
        a[0] < b[0]
    }
}

/// Of two texts, one comes first.
pub proof fn lemma_comes_first_total(a: Seq<char>, b: Seq<char>)
    ensures
        comes_first(a, b) || comes_first(b, a),
    decreases a.len(),
{
    if a.len() > 0 && b.len() > 0 && a[0] == b[0] {
        lemma_comes_first_total(a.skip(1), b.skip(1));
    }
}

/// Two texts that both come first are the same.
pub proof fn lemma_comes_first_same(a: Seq<char>, b: Seq<char>)
    requires
        comes_first(a, b),
        comes_first(b, a),
    ensures
        a == b,
    decreases a.len(),
{
    if a.len() > 0 && b.len() > 0 {
        lemma_comes_first_same(a.skip(1), b.skip(1));
        assert(a =~= seq![a[0]] + a.skip(1));
        assert(b =~= seq![b[0]] + b.skip(1));
    } else {
        assert(a =~= b);
    }
}

/// What comes before a text comes before what follows it.
pub proof fn lemma_comes_first_on(a: Seq<char>, b: Seq<char>, c: Seq<char>)
    requires
        comes_first(a, b),
        comes_first(b, c),
    ensures
        comes_first(a, c),
    decreases a.len(),
{
    if a.len() > 0 && a[0] == b[0] && b[0] == c[0] {
        lemma_comes_first_on(a.skip(1), b.skip(1), c.skip(1));
    }
}

/// Computes [`comes_first`].
pub fn precedes(a: &str, b: &str) -> (r: bool)
    ensures
        r == comes_first(a@, b@),
{
    let x = to_chars(a);
    let y = to_chars(b);
    let mut i: usize = 0;
    assert(a@.skip(0) =~= a@);
    assert(b@.skip(0) =~= b@);
    while i < x.len() && i < y.len() && x[i] == y[i]
        invariant
            i <= x@.len(),
            i <= y@.len(),
            x@ == a@,
            y@ == b@,
            comes_first(a@, b@) == comes_first(a@.skip(i as int), b@.skip(i as int)),
        decreases x.len() - i,
    {
        assert(a@.skip(i as int).skip(1) =~= a@.skip(i + 1));
        assert(b@.skip(i as int).skip(1) =~= b@.skip(i + 1));
        i = i + 1;
    }
    if i >= x.len() {
        true
    } else if i >= y.len() {
        false
    } else {
        x[i] < y[i]
    }
}

/// The UTF-8 form of a text.
pub open spec fn bytes(s: Seq<char>) -> Seq<u8> {
    vstd::utf8::encode_utf8(s)
}

/// Computes [`bytes`].
pub fn to_bytes(s: &str) -> (r: Vec<u8>)
    ensures
        r@ == bytes(s@),
{
    vstd::slice::slice_to_vec(s.as_bytes())
}

/// `true` or `false`.
pub open spec fn truth(value: bool) -> Seq<char> {
    if value {
        "true"@
    } else {
        "false"@
    }
}

/// Computes [`truth`].
pub fn truth_of(value: bool) -> (r: &'static str)
    ensures
        r@ == truth(value),
{
    if value {
        "true"
    } else {
        "false"
    }
}

/// The text of bytes, in which what is not UTF-8 has been replaced.
pub uninterp spec fn lossy(bytes: Seq<u8>) -> Seq<char>;

/// `String::from_utf8_lossy`: the text depends on the bytes alone, and where the
/// bytes are well-formed UTF-8 it is the text that they encode.
#[verifier::external_body]
fn from_utf8_lossy(bytes: &Vec<u8>) -> (r: String)
    ensures
        r@ == lossy(bytes@),
        vstd::utf8::valid_utf8(bytes@) ==> r@ == vstd::utf8::decode_utf8(bytes@),
{
    String::from_utf8_lossy(bytes).into_owned()
}

/// The text of bytes: what they encode where they are well-formed UTF-8, and
/// else a text in which what is not has been replaced.
pub open spec fn rendered(bytes: Seq<u8>) -> Seq<char> {
    if vstd::utf8::valid_utf8(bytes) {
        vstd::utf8::decode_utf8(bytes)
    } else {
        lossy(bytes)
    }
}

/// Computes [`rendered`].
pub fn render(bytes: &Vec<u8>) -> (r: String)
    ensures
        r@ == rendered(bytes@),
{
    from_utf8_lossy(bytes)
}

/// `String::from_utf8`: the text that the bytes encode, where they are
/// well-formed UTF-8.
#[verifier::external_body]
pub(crate) fn from_utf8(bytes: Vec<u8>) -> (r: Option<String>)
    ensures
        r.deep_view() == decoded(bytes@),
{
    String::from_utf8(bytes).ok()
}

/// The text that bytes encode, where they are well-formed UTF-8.
pub open spec fn decoded(bytes: Seq<u8>) -> Option<Seq<char>> {
    if vstd::utf8::valid_utf8(bytes) {
        Some(vstd::utf8::decode_utf8(bytes))
    } else {
        None
    }
}

} // verus!

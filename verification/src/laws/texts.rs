//! Laws of the operations on texts.
use vstd::prelude::*;

use crate::text::{
    all_digits, comes_first, decimal, digits_value, find, has_prefix, is_white, joined, lines,
    lower, lowercase, occurs, parsed_u32, split, split_first, trim_end, trim_start, trimmed,
};

verus! {

/// The characters that are taken for white space, by their numbers.
pub proof fn law_white_characters(c: char)
    ensures
        is_white(c) <==> {
            let n = c as int;
            ||| 9 <= n <= 13
            ||| n == 32
            ||| n == 0x85
            ||| n == 0xa0
            ||| n == 0x1680
            ||| 0x2000 <= n <= 0x200a
            ||| n == 0x2028
            ||| n == 0x2029
            ||| n == 0x202f
            ||| n == 0x205f
            ||| n == 0x3000
        },
{
}

/// Whether a text holds nothing but white space.
pub open spec fn blank(s: Seq<char>) -> bool {
    forall|i: int| 0 <= i < s.len() ==> is_white(#[trigger] s[i])
}

/// Whether a text neither begins nor ends with white space.
pub open spec fn tight(s: Seq<char>) -> bool {
    s.len() > 0 ==> !is_white(s[0]) && !is_white(s.last())
}

/// Trimming takes white space off the front, and no more.
proof fn lemma_front_goes(front: Seq<char>, s: Seq<char>)
    requires
        blank(front),
        s.len() == 0 || !is_white(s[0]),
    ensures
        trim_start(front + s) == s,
    decreases front.len(),
{
    let whole = front + s;
    if front.len() > 0 {
        assert(whole[0] == front[0]);
        assert(whole.skip(1) =~= front.skip(1) + s);
        lemma_front_goes(front.skip(1), s);
    } else {
        assert(whole =~= s);
    }
}

/// Trimming takes white space off the back, and no more.
proof fn lemma_back_goes(s: Seq<char>, back: Seq<char>)
    requires
        blank(back),
        s.len() == 0 || !is_white(s.last()),
    ensures
        trim_end(s + back) == s,
    decreases back.len(),
{
    let whole = s + back;
    if back.len() > 0 {
        assert(whole.last() == back.last());
        assert(whole.drop_last() =~= s + back.drop_last());
        lemma_back_goes(s, back.drop_last());
    } else {
        assert(whole =~= s);
    }
}

/// A text between white space is what trimming leaves.
pub proof fn law_trimmed_between_white_space(front: Seq<char>, s: Seq<char>, back: Seq<char>)
    requires
        blank(front),
        blank(back),
        tight(s),
    ensures
        trimmed(front + s + back) == s,
{
    let none: Seq<char> = Seq::empty();
    if s.len() == 0 {
        let all = front + s + back;
        assert forall|i: int| 0 <= i < all.len() implies is_white(#[trigger] all[i]) by {
            if i < front.len() {
                assert(all[i] == front[i]);
            } else {
                assert(all[i] == back[i - front.len()]);
            }
        }
        assert(all =~= all + none);
        lemma_front_goes(all, none);
        assert(none + none =~= none);
        lemma_back_goes(none, none);
        assert(s =~= none);
    } else {
        assert(front + s + back =~= front + (s + back));
        assert((s + back)[0] == s[0]);
        lemma_front_goes(front, s + back);
        lemma_back_goes(s, back);
    }
}

/// A text without white space at its ends is its own trimming.
pub proof fn lemma_tight_is_trimmed(s: Seq<char>)
    requires
        tight(s),
    ensures
        trimmed(s) == s,
{
    let none: Seq<char> = Seq::empty();
    law_trimmed_between_white_space(none, s, none);
    assert(none + s + none =~= s);
}

/// The lower case of a text has as many characters; the letters from A to Z give way
/// to those from a to z, and all other characters stay.
pub proof fn law_lowercase(s: Seq<char>)
    ensures
        lowercase(s).len() == s.len(),
        forall|i: int|
            0 <= i < s.len() ==> (#[trigger] lowercase(s)[i]) as int == if 65 <= s[i] as int <= 90 {
                s[i] as int + 32
            } else {
                s[i] as int
            },
{
    assert forall|i: int| 0 <= i < s.len() implies (#[trigger] lowercase(s)[i]) as int == if 65
        <= s[i] as int <= 90 {
        s[i] as int + 32
    } else {
        s[i] as int
    } by {
        let c = s[i];
        assert(lowercase(s)[i] == lower(c));
        if 'A' <= c <= 'Z' {
            assert((c as u8) as int == c as int);
        }
    }
}

/// A text begins with another where something follows that one to make it.
pub proof fn law_prefix(s: Seq<char>, prefix: Seq<char>)
    ensures
        has_prefix(s, prefix) <==> exists|rest: Seq<char>| s == #[trigger] (prefix + rest),
{
    if has_prefix(s, prefix) {
        assert(s =~= prefix + s.skip(prefix.len() as int));
    }
    assert forall|rest: Seq<char>| s == #[trigger] (prefix + rest) implies has_prefix(
        s,
        prefix,
    ) by {
        assert(s.take(prefix.len() as int) =~= prefix);
    }
}

/// Whether a text stands at a place of another.
pub open spec fn stands_at(s: Seq<char>, pat: Seq<char>, i: int) -> bool {
    0 <= i && i + pat.len() <= s.len() && s.subrange(i, i + pat.len()) == pat
}

/// What is found is the first place where the text stands, and nothing only where it
/// stands nowhere.
pub proof fn law_find(s: Seq<char>, pat: Seq<char>)
    ensures
        match find(s, pat) {
            Some(i) => stands_at(s, pat, i) && forall|j: int| 0 <= j < i ==> !stands_at(s, pat, j),
            None => forall|j: int| !stands_at(s, pat, j),
        },
    decreases s.len(),
{
    if s.len() >= pat.len() {
        assert(s.take(pat.len() as int) =~= s.subrange(0, 0int + pat.len()));
    }
    if !has_prefix(s, pat) && s.len() > 0 {
        let rest = s.skip(1);
        law_find(rest, pat);
        assert forall|j: int| stands_at(s, pat, j) implies j > 0 && stands_at(rest, pat, j - 1) by {
            if j > 0 {
                assert(rest.subrange(j - 1, j - 1 + pat.len()) =~= s.subrange(j, j + pat.len()));
            }
        }
        match find(rest, pat) {
            Some(i) => {
                assert(s.subrange(i + 1, i + 1 + pat.len()) =~= rest.subrange(i, i + pat.len()));
            },
            None => {},
        }
    }
}

/// A single character occurs in a text where it is one of its characters.
pub proof fn law_character_occurs(s: Seq<char>, pat: Seq<char>, c: char)
    requires
        pat == seq![c],
    ensures
        occurs(s, pat) <==> s.contains(c),
{
    law_find(s, pat);
    if s.contains(c) {
        let i = choose|i: int| 0 <= i < s.len() && s[i] == c;
        assert(s.subrange(i, i + 1) =~= pat);
        assert(stands_at(s, pat, i));
    }
    match find(s, pat) {
        Some(i) => {
            assert(s.subrange(i, i + 1)[0] == pat[0]);
            assert(s[i] == c);
        },
        None => {},
    }
}

/// The two sides of the first place of a separator.
pub proof fn law_split_first(s: Seq<char>, sep: Seq<char>)
    ensures
        match split_first(s, sep) {
            Some((left, right)) => s == left + sep + right && forall|j: int|
                0 <= j < left.len() ==> !stands_at(s, sep, j),
            None => forall|j: int| !stands_at(s, sep, j),
        },
{
    law_find(s, sep);
    match find(s, sep) {
        Some(i) => {
            assert(s =~= s.take(i) + s.subrange(i, i + sep.len()) + s.skip(i + sep.len()));
        },
        None => {},
    }
}

/// Putting a piece in front of joined ones.
proof fn lemma_joined_front(first: Seq<char>, rest: Seq<Seq<char>>, sep: Seq<char>)
    requires
        rest.len() > 0,
    ensures
        joined(seq![first] + rest, sep) == first + sep + joined(rest, sep),
    decreases rest.len(),
{
    let all = seq![first] + rest;
    assert(all.last() == rest.last());
    if rest.len() == 1 {
        assert(all.drop_last() =~= seq![first]);
        assert(joined(all.drop_last(), sep) == first);
    } else {
        assert(all.drop_last() =~= seq![first] + rest.drop_last());
        lemma_joined_front(first, rest.drop_last(), sep);
        assert(joined(all, sep) =~= first + sep + joined(rest, sep));
    }
}

/// Splitting a text and joining the pieces gives the text back, and no piece holds
/// the separator.
pub proof fn law_split_and_joined(s: Seq<char>, sep: Seq<char>)
    requires
        sep.len() > 0,
    ensures
        split(s, sep).len() > 0,
        joined(split(s, sep), sep) == s,
        forall|k: int, j: int|
            0 <= k < split(s, sep).len() ==> !(#[trigger] stands_at(split(s, sep)[k], sep, j)),
    decreases s.len(),
{
    law_find(s, sep);
    let pieces = split(s, sep);
    match find(s, sep) {
        Some(i) => {
            let first = s.take(i);
            let tail = s.skip(i + sep.len());
            law_split_and_joined(tail, sep);
            assert(pieces =~= seq![first] + split(tail, sep));
            lemma_joined_front(first, split(tail, sep), sep);
            assert(s =~= first + s.subrange(i, i + sep.len()) + tail);
            assert forall|k: int, j: int| 0 <= k < pieces.len() implies !(#[trigger] stands_at(
                pieces[k],
                sep,
                j,
            )) by {
                if k == 0 {
                    if stands_at(first, sep, j) {
                        assert(s.subrange(j, j + sep.len()) =~= first.subrange(j, j + sep.len()));
                        assert(stands_at(s, sep, j));
                    }
                } else {
                    assert(pieces[k] == split(tail, sep)[k - 1]);
                    assert(!stands_at(split(tail, sep)[k - 1], sep, j));
                }
            }
        },
        None => {
            assert(pieces =~= seq![s]);
            assert(joined(pieces, sep) == s);
        },
    }
}

/// A piece in front of a separator is split off first.
pub proof fn law_split_takes_pieces_off(piece: Seq<char>, c: char, rest: Seq<char>)
    requires
        !piece.contains(c),
    ensures
        split(piece + seq![c] + rest, seq![c]) == seq![piece] + split(rest, seq![c]),
        split(piece, seq![c]) == seq![piece],
{
    let sep = seq![c];
    let s = piece + sep + rest;
    law_find(s, sep);
    law_find(piece, sep);
    let at = piece.len() as int;
    assert(s.subrange(at, at + 1) =~= sep);
    assert(stands_at(s, sep, at));
    assert forall|j: int| 0 <= j < at implies !stands_at(s, sep, j) by {
        if stands_at(s, sep, j) {
            assert(s.subrange(j, j + 1)[0] == c);
            assert(piece[j] == c);
        }
    }
    assert(find(s, sep) == Some(at));
    assert(s.take(at) =~= piece);
    assert(s.skip(at + 1) =~= rest);
    assert forall|j: int| !stands_at(piece, sep, j) by {
        if stands_at(piece, sep, j) {
            assert(piece.subrange(j, j + 1)[0] == c);
            assert(piece[j] == c);
        }
    }
}

/// A text without line ends is one line; a line end, with or without a carriage
/// return, ends a line; and nothing is no line.
pub proof fn law_lines(line: Seq<char>, rest: Seq<char>)
    requires
        !line.contains('\n'),
    ensures
        lines(Seq::empty()) == Seq::<Seq<char>>::empty(),
        line.len() > 0 ==> lines(line) == seq![line],
        lines(line + seq!['\n'] + rest) == seq![
            if line.len() > 0 && line.last() == '\r' {
                line.drop_last()
            } else {
                line
            },
        ] + lines(rest),
{
    let none: Seq<char> = Seq::empty();
    law_split_takes_pieces_off(none, '\n', none);
    assert(lines(none) =~= Seq::<Seq<char>>::empty());
    law_split_takes_pieces_off(line, '\n', rest);
    if line.len() > 0 {
        assert(lines(line) =~= seq![line]);
    }
    let s = line + seq!['\n'] + rest;
    let tail = split(rest, seq!['\n']);
    crate::text::lemma_split_nonempty(rest, seq!['\n']);
    let pieces = split(s, seq!['\n']);
    assert(pieces.last() == tail.last());
    assert(pieces.drop_last() =~= seq![line] + tail.drop_last());
    assert(lines(s) =~= seq![crate::text::without_cr(line)] + lines(rest));
}

/// A number is written in digits, without a zero in front, and read back as itself.
pub proof fn law_decimal(n: nat)
    ensures
        decimal(n).len() > 0,
        all_digits(decimal(n)),
        digits_value(decimal(n)) == n,
        n > 0 ==> decimal(n)[0] != '0',
        n == 0 ==> decimal(n) == seq!['0'],
    decreases n,
{
    reveal_with_fuel(digits_value, 2);
    let last = (n % 10) as nat;
    if n < 10 {
        assert(decimal(n).drop_last() =~= Seq::empty());
        assert(decimal(n).last() == ((n + 48) as char));
    } else {
        law_decimal(n / 10);
        assert(decimal(n).drop_last() =~= decimal(n / 10));
        assert(decimal(n).last() == ((last + 48) as char));
        assert(decimal(n)[0] == decimal(n / 10)[0]);
    }
}

/// The value of digits is worth ten times as much with one digit more behind them,
/// and that digit.
pub proof fn law_digits_count_by_ten(s: Seq<char>, c: char)
    requires
        48 <= c as int <= 57,
    ensures
        digits_value(Seq::empty()) == 0,
        digits_value(s.push(c)) == 10 * digits_value(s) + (c as int - 48),
{
    assert(s.push(c).drop_last() =~= s);
}

/// A number is read from its digits, with or without a plus sign, and from nothing
/// else.
pub proof fn law_numbers_are_read(s: Seq<char>, n: u32)
    ensures
        parsed_u32(decimal(n as nat)) == Some(n),
        parsed_u32(seq!['+'] + decimal(n as nat)) == Some(n),
        parsed_u32(s) matches Some(value) ==> {
            &&& s.len() > 0
            &&& forall|i: int| 0 < i < s.len() ==> 48 <= (#[trigger] s[i]) as int <= 57
            &&& 48 <= s[0] as int <= 57 ==> digits_value(s) == value
            &&& !(48 <= s[0] as int <= 57) ==> s[0] == '+' && s.len() > 1 && digits_value(
                s.skip(1),
            ) == value
        },
        parsed_u32(s) is None && s.len() > 0 && all_digits(s) ==> digits_value(s) > u32::MAX,
{
    law_decimal(n as nat);
    let d = decimal(n as nat);
    assert(crate::text::is_digit(d[0]));
    assert((seq!['+'] + d).skip(1) =~= d);
    if parsed_u32(s) is Some {
        if s[0] == '+' {
            assert forall|i: int| 0 < i < s.len() implies 48 <= (#[trigger] s[i]) as int <= 57 by {
                assert(crate::text::is_digit(s.skip(1)[i - 1]));
            }
        } else {
            assert(crate::text::is_digit(s[0]));
        }
    } else if s.len() > 0 && all_digits(s) {
        assert(crate::text::is_digit(s[0]));
    }
}

/// One text comes before another where it is the beginning of it, or where its
/// character is the smaller one at the first place at which they differ.
pub proof fn law_order_of_texts(a: Seq<char>, b: Seq<char>)
    ensures
        (a.len() <= b.len() && a == b.take(a.len() as int)) ==> comes_first(a, b),
        forall|i: int|
            0 <= i < a.len() && i < b.len() && #[trigger] a.take(i) == b.take(i) && a[i] != b[i]
                ==> (comes_first(a, b) <==> a[i] < b[i]),
        b.len() < a.len() && b == a.take(b.len() as int) ==> !comes_first(a, b),
    decreases a.len(),
{
    if a.len() > 0 && b.len() > 0 {
        law_order_of_texts(a.skip(1), b.skip(1));
        if a.len() <= b.len() && a == b.take(a.len() as int) {
            assert(a[0] == b.take(a.len() as int)[0]);
            assert(a.skip(1) =~= b.skip(1).take(a.skip(1).len() as int));
        }
        if b.len() < a.len() && b == a.take(b.len() as int) {
            assert(b[0] == a.take(b.len() as int)[0]);
            assert(b.skip(1) =~= a.skip(1).take(b.skip(1).len() as int));
        }
        assert forall|i: int|
            0 <= i < a.len() && i < b.len() && #[trigger] a.take(i) == b.take(i) && a[i]
                != b[i] implies (comes_first(a, b) <==> a[i] < b[i]) by {
            if i > 0 {
                assert(a[0] == a.take(i)[0]);
                assert(b[0] == b.take(i)[0]);
                let (p, q) = (a.skip(1), b.skip(1));
                assert(p.take(i - 1) =~= a.take(i).skip(1));
                assert(q.take(i - 1) =~= b.take(i).skip(1));
                assert(p.take(i - 1) == q.take(i - 1));
                assert(p[i - 1] == a[i]);
                assert(q[i - 1] == b[i]);
            }
        }
    }
}

/// Joining two pieces puts the separator between them, and one piece stays as it is.
pub proof fn law_joined(parts: Seq<Seq<char>>, sep: Seq<char>, last: Seq<char>)
    ensures
        joined(seq![last], sep) == last,
        joined(Seq::empty(), sep) == Seq::<char>::empty(),
        parts.len() > 0 ==> joined(parts.push(last), sep) == joined(parts, sep) + sep + last,
{
    assert(parts.push(last).drop_last() =~= parts);
}

} // verus!

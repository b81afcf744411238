//! Starting and ending a child process on Windows: its command line, its
//! environment, and what each system call leads to.
use vstd::prelude::*;

use crate::startup::IoFailure;
use crate::table::Table;
use crate::text;

verus! {

/// A child process to start.
#[derive(Debug, PartialEq, Eq)]
pub struct ChildCommand {
    /// The program.
    pub program: String,
    /// What the program sees as its own name, where that is another.
    pub arg0: Option<String>,
    /// The arguments.
    pub args: Vec<String>,
    /// The environment variables that are set for it.
    pub env: Vec<(String, String)>,
    /// Whether it inherits no environment variables.
    pub clear_env: bool,
    /// The directory in which it starts.
    pub current_dir: Option<String>,
}

/// Backslashes.
pub open spec fn backslashes(n: nat) -> Seq<char> {
    Seq::new(n, |i: int| '\\')
}

/// Whether an argument must stand in quotes.
pub open spec fn needs_quotes(arg: Seq<char>) -> bool {
    exists|i: int| 0 <= i < arg.len() && is_special(#[trigger] arg[i])
}

/// Whether a character can only stand in quotes.
pub open spec fn is_special(c: char) -> bool {
    c == ' ' || c == '\t' || c == '"'
}

/// The rest of a quoted argument, after `n` backslashes: backslashes in front of
/// a quote are doubled, and the quote gets one of its own.
pub open spec fn quoted_rest(s: Seq<char>, n: nat) -> Seq<char>
    decreases s.len(),
{
    if s.len() == 0 {
        backslashes(n + n) + seq!['"']
    } else if s[0] == '\\' {
        quoted_rest(s.skip(1), n + 1)
    } else if s[0] == '"' {
        backslashes(n + n + 1) + seq!['"'] + quoted_rest(s.skip(1), 0)
    } else {
        backslashes(n) + seq![s[0]] + quoted_rest(s.skip(1), 0)
    }
}

/// An argument as it stands in a command line.
pub open spec fn quoted(arg: Seq<char>) -> Seq<char> {
    if arg.len() == 0 {
        seq!['"', '"']
    } else if !needs_quotes(arg) {
        arg
    } else {
        seq!['"'] + quoted_rest(arg, 0)
    }
}

/// What a program reads in quotes, after `n` backslashes, and what is left behind
/// the quotes: in front of a quote, two backslashes stand for one, and an odd one
/// for the quote itself; the first other quote ends the word.
pub open spec fn read_quoted(s: Seq<char>, n: nat) -> Option<(Seq<char>, Seq<char>)>
    decreases s.len(),
{
    if s.len() == 0 {
        None
    } else if s[0] == '\\' {
        read_quoted(s.skip(1), n + 1)
    } else if s[0] == '"' && n % 2 == 0 {
        Some((backslashes(n / 2), s.skip(1)))
    } else {
        let said = if s[0] == '"' {
            n / 2
        } else {
            n
        };
        match read_quoted(s.skip(1), 0) {
            Some((word, left)) => Some((backslashes(said) + seq![s[0]] + word, left)),
            None => None,
        }
    }
}

/// A word that stands in no quotes, and what is left behind it: it ends before
/// the first character that can only stand in quotes.
pub open spec fn read_plain(s: Seq<char>) -> (Seq<char>, Seq<char>)
    decreases s.len(),
{
    if s.len() == 0 || is_special(s[0]) {
        (Seq::empty(), s)
    } else {
        let (word, left) = read_plain(s.skip(1));
        (seq![s[0]] + word, left)
    }
}

/// The first word that a program reads in a command line, and what is left behind
/// it.
pub open spec fn read_word(s: Seq<char>) -> Option<(Seq<char>, Seq<char>)> {
    if s.len() == 0 || s[0] == ' ' {
        None
    } else if s[0] == '"' {
        read_quoted(s.skip(1), 0)
    } else {
        Some(read_plain(s))
    }
}

/// The words that a program reads in a command line, where there is a space
/// between each two of them.
pub open spec fn read_words(s: Seq<char>) -> Option<Seq<Seq<char>>>
    decreases s.len(),
{
    proof {
        lemma_word_ends(s);
    }
    match read_word(s) {
        None => None,
        Some((word, left)) => if left.len() == 0 {
            Some(seq![word])
        } else if left[0] != ' ' {
            None
        } else {
            match read_words(left.skip(1)) {
                Some(more) => Some(seq![word] + more),
                None => None,
            }
        },
    }
}

/// What is left behind a word is no longer than the line.
pub proof fn lemma_word_ends(s: Seq<char>)
    ensures
        read_word(s) matches Some((word, left)) ==> left.len() <= s.len(),
{
    lemma_plain_ends(s);
    if s.len() > 0 {
        lemma_quotes_end(s.skip(1), 0);
    }
}

/// What is left behind a word in no quotes is no longer than the line.
proof fn lemma_plain_ends(s: Seq<char>)
    ensures
        read_plain(s).1.len() <= s.len(),
    decreases s.len(),
{
    if s.len() > 0 && !is_special(s[0]) {
        lemma_plain_ends(s.skip(1));
    }
}

/// What is left behind quotes is no longer than the line.
proof fn lemma_quotes_end(s: Seq<char>, n: nat)
    ensures
        read_quoted(s, n) matches Some((word, left)) ==> left.len() <= s.len(),
    decreases s.len(),
{
    if s.len() > 0 {
        if s[0] == '\\' {
            lemma_quotes_end(s.skip(1), n + 1);
        } else {
            lemma_quotes_end(s.skip(1), 0);
        }
    }
}

/// Backslashes are counted before they are read.
proof fn lemma_count(k: nat, rest: Seq<char>, n: nat)
    ensures
        read_quoted(backslashes(k) + rest, n) == read_quoted(rest, n + k),
    decreases k,
{
    if k == 0 {
        assert(backslashes(0) + rest =~= rest);
    } else {
        let s = backslashes(k) + rest;
        assert(s[0] == '\\');
        assert(s.skip(1) =~= backslashes((k - 1) as nat) + rest);
        lemma_count((k - 1) as nat, rest, n + 1);
    }
}

/// What was quoted is read back, and what stands behind it is left.
proof fn lemma_read_back(s: Seq<char>, n: nat, behind: Seq<char>)
    ensures
        read_quoted(quoted_rest(s, n) + behind, 0) == Some((backslashes(n) + s, behind)),
    decreases s.len(),
{
    if s.len() == 0 {
        let tail = seq!['"'] + behind;
        assert(quoted_rest(s, n) + behind =~= backslashes(n + n) + tail);
        lemma_count(n + n, tail, 0);
        assert((n + n) / 2 == n && (n + n) % 2 == 0);
        assert(tail.skip(1) =~= behind);
        assert(backslashes(n) + s =~= backslashes(n));
    } else if s[0] == '\\' {
        lemma_read_back(s.skip(1), n + 1, behind);
        assert(backslashes(n + 1) + s.skip(1) =~= backslashes(n) + s);
    } else {
        let count = if s[0] == '"' {
            n + n + 1
        } else {
            n
        };
        let rest = quoted_rest(s.skip(1), 0) + behind;
        let tail = seq![s[0]] + rest;
        assert(quoted_rest(s, n) + behind =~= backslashes(count) + tail);
        lemma_count(count, tail, 0);
        lemma_read_back(s.skip(1), 0, behind);
        assert(tail.skip(1) =~= rest);
        assert((n + n + 1) % 2 == 1 && (n + n + 1) / 2 == n as int);
        assert(backslashes(n) + seq![s[0]] + (backslashes(0) + s.skip(1)) =~= backslashes(n) + s);
    }
}

/// A word that needs no quotes is read back, and what stands behind it is left.
proof fn lemma_read_plain(s: Seq<char>, behind: Seq<char>)
    requires
        !needs_quotes(s),
        behind.len() == 0 || behind[0] == ' ',
    ensures
        read_plain(s + behind) == (s, behind),
    decreases s.len(),
{
    let all = s + behind;
    if s.len() == 0 {
        assert(all =~= behind);
        assert(s =~= Seq::empty());
        if behind.len() > 0 {
            assert(is_special(behind[0]));
        }
    } else {
        assert(!is_special(s[0]));
        assert forall|i: int| 0 <= i < s.skip(1).len() implies !is_special(
            #[trigger] s.skip(1)[i],
        ) by {
            assert(s.skip(1)[i] == s[i + 1]);
        }
        lemma_read_plain(s.skip(1), behind);
        assert(all.skip(1) =~= s.skip(1) + behind);
        assert(seq![s[0]] + s.skip(1) =~= s);
    }
}

/// An argument is read back, whatever it holds and whatever stands behind it.
proof fn lemma_word(arg: Seq<char>, behind: Seq<char>)
    requires
        behind.len() == 0 || behind[0] == ' ',
    ensures
        read_word(quoted(arg) + behind) == Some((arg, behind)),
        quoted(arg).len() > 0,
{
    let all = quoted(arg) + behind;
    if arg.len() > 0 && !needs_quotes(arg) {
        assert(!is_special(arg[0]));
        lemma_read_plain(arg, behind);
    } else if arg.len() == 0 {
        assert(all.skip(1) =~= seq!['"'] + behind);
        assert((seq!['"'] + behind).skip(1) =~= behind);
        assert(backslashes(0) =~= arg);
    } else {
        lemma_read_back(arg, 0, behind);
        assert(all.skip(1) =~= quoted_rest(arg, 0) + behind);
        assert(backslashes(0) + arg =~= arg);
    }
}

/// The words of a command line, each quoted where it must be, with a space between
/// each two of them.
pub open spec fn line_of(words: Seq<Seq<char>>) -> Seq<char> {
    text::joined(words.map_values(|word: Seq<char>| quoted(word)), " "@)
}

/// A line starts with its first word.
proof fn lemma_first_word(words: Seq<Seq<char>>)
    requires
        words.len() > 1,
    ensures
        line_of(words) == quoted(words[0]) + " "@ + line_of(words.skip(1)),
    decreases words.len(),
{
    let parts = words.map_values(|word: Seq<char>| quoted(word));
    let fewer = words.drop_last();
    assert(parts.drop_last() =~= fewer.map_values(|word: Seq<char>| quoted(word)));
    let rest = words.skip(1);
    let rest_parts = rest.map_values(|word: Seq<char>| quoted(word));
    assert(line_of(words) == line_of(fewer) + " "@ + quoted(words.last()));
    if words.len() == 2 {
        assert(line_of(fewer) == quoted(words[0]));
        assert(line_of(rest) == quoted(words[1]));
    } else {
        lemma_first_word(fewer);
        assert(fewer.skip(1) =~= rest.drop_last());
        assert(rest_parts.drop_last() =~= rest.drop_last().map_values(
            |word: Seq<char>| quoted(word),
        ));
        assert(line_of(rest) == line_of(rest.drop_last()) + " "@ + quoted(words.last()));
        assert(line_of(words) =~= quoted(words[0]) + " "@ + line_of(rest));
    }
}

/// A program reads the words of its command line as they were given, whatever
/// they hold.
pub proof fn law_words_are_read_back(words: Seq<Seq<char>>)
    requires
        words.len() > 0,
    ensures
        read_words(line_of(words)) == Some(words),
    decreases words.len(),
{
    reveal_strlit(" ");
    let line = line_of(words);
    let first = quoted(words[0]);
    if words.len() == 1 {
        lemma_word(words[0], Seq::empty());
        assert(line =~= first + Seq::<char>::empty());
        lemma_word_ends(line);
        assert(seq![words[0]] =~= words);
    } else {
        let rest = words.skip(1);
        let behind = " "@ + line_of(rest);
        lemma_first_word(words);
        assert(line =~= first + behind);
        lemma_word(words[0], behind);
        law_words_are_read_back(rest);
        lemma_word_ends(line);
        assert(behind.skip(1) =~= line_of(rest));
        assert(seq![words[0]] + rest =~= words);
    }
}

/// Appends backslashes.
fn push_backslashes(out: &mut String, n: usize)
    ensures
        final(out)@ == old(out)@ + backslashes(n as nat),
{
    let ghost before = out@;
    let mut i: usize = 0;
    assert(out@ =~= before + backslashes(0));
    while i < n
        invariant
            i <= n,
            out@ =~= before + backslashes(i as nat),
        decreases n - i,
    {
        out.push('\\');
        i = i + 1;
    }
}

/// Puts an argument in quotes where it needs them; see [`quoted`].
pub fn quote_arg(arg: &str) -> (r: String)
    ensures
        r@ == quoted(arg@),
{
    if arg.is_empty() {
        let mut empty = String::new();
        empty.push('"');
        empty.push('"');
        assert(empty@ =~= seq!['"', '"']);
        return empty;
    }
    let chars = text::to_chars(arg);
    let mut special = false;
    let mut k: usize = 0;
    while k < chars.len()
        invariant
            k <= chars@.len(),
            special == exists|i: int| 0 <= i < k && is_special(#[trigger] chars@[i]),
        decreases chars.len() - k,
    {
        let c = chars[k];
        if c == ' ' || c == '\t' || c == '"' {
            assert(is_special(chars@[k as int]));
            special = true;
        }
        k = k + 1;
    }
    if !special {
        return arg.to_owned();
    }
    let mut out = String::new();
    out.push('"');
    let mut count: usize = 0;
    let mut i: usize = 0;
    assert(chars@.skip(0) =~= chars@);
    assert(out@ + quoted_rest(chars@, 0) =~= seq!['"'] + quoted_rest(chars@, 0));
    while i < chars.len()
        invariant
            i <= chars@.len(),
            chars@ == arg@,
            count <= i,
            out@ + quoted_rest(chars@.skip(i as int), count as nat) == seq!['"'] + quoted_rest(
                arg@,
                0,
            ),
        decreases chars.len() - i,
    {
        let ghost rest = chars@.skip(i as int);
        let ghost before = out@;
        let c = chars[i];
        assert(rest[0] == c);
        assert(rest.skip(1) =~= chars@.skip(i + 1));
        if c == '\\' {
            count = count + 1;
        } else if c == '"' {
            push_backslashes(&mut out, count);
            push_backslashes(&mut out, count);
            out.push('\\');
            out.push('"');
            assert(out@ + quoted_rest(rest.skip(1), 0) =~= before + (backslashes(
                (count + count + 1) as nat,
            ) + seq!['"'] + quoted_rest(rest.skip(1), 0)));
            count = 0;
        } else {
            push_backslashes(&mut out, count);
            out.push(c);
            assert(out@ + quoted_rest(rest.skip(1), 0) =~= before + (backslashes(count as nat)
                + seq![c] + quoted_rest(rest.skip(1), 0)));
            count = 0;
        }
        i = i + 1;
    }
    let ghost before = out@;
    assert(chars@.skip(i as int) =~= Seq::empty());
    push_backslashes(&mut out, count);
    push_backslashes(&mut out, count);
    out.push('"');
    assert(out@ =~= before + (backslashes((count + count) as nat) + seq!['"']));
    out
}

/// A character in UTF-16.
pub open spec fn utf16(c: char) -> Seq<u16> {
    let v = c as u32;
    if v < 0x1_0000 {
        seq![v as u16]
    } else {
        seq![
            (0xd800 + (v - 0x1_0000) / 0x400) as u16,
            (0xdc00 + (v - 0x1_0000) % 0x400) as u16,
        ]
    }
}

/// A text in UTF-16.
pub open spec fn wide(s: Seq<char>) -> Seq<u16>
    decreases s.len(),
{
    if s.len() == 0 {
        Seq::empty()
    } else {
        wide(s.drop_last()) + utf16(s.last())
    }
}

/// Appends a text in UTF-16.
fn push_wide(out: &mut Vec<u16>, s: &str)
    ensures
        final(out)@ == old(out)@ + wide(s@),
{
    let chars = text::to_chars(s);
    let ghost before = out@;
    let mut i: usize = 0;
    assert(chars@.take(0).len() == 0);
    assert(out@ =~= before + wide(chars@.take(0)));
    while i < chars.len()
        invariant
            i <= chars@.len(),
            chars@ == s@,
            out@ == before + wide(chars@.take(i as int)),
        decreases chars.len() - i,
    {
        proof {
            assert(chars@.take(i + 1).drop_last() =~= chars@.take(i as int));
            assert(chars@.take(i + 1).last() == chars@[i as int]);
        }
        let ghost earlier = out@;
        let v = chars[i] as u32;
        if v < 0x1_0000 {
            out.push(v as u16);
        } else {
            let low: u32 = v - 0x1_0000;
            out.push((0xd800 + low / 0x400) as u16);
            out.push((0xdc00 + low % 0x400) as u16);
        }
        assert(out@ =~= earlier + utf16(chars@[i as int]));
        assert(out@ =~= before + wide(chars@.take(i + 1)));
        i = i + 1;
    }
    assert(chars@.take(i as int) =~= chars@);
}

/// A text in UTF-16 with a zero at its end.
pub fn wide_null(value: &str) -> (r: Vec<u16>)
    ensures
        r@ == wide(value@).push(0),
{
    let mut out: Vec<u16> = Vec::new();
    push_wide(&mut out, value);
    assert(out@ =~= wide(value@));
    out.push(0);
    out
}

impl ChildCommand {
    /// The name that the program sees as its own, and its arguments.
    pub open spec fn words(self) -> Seq<Seq<char>> {
        let own = match self.arg0 {
            Some(arg0) => arg0@,
            None => self.program@,
        };
        seq![own] + self.args.deep_view()
    }
}

/// The command line of a child: its words with a space between them, in UTF-16
/// with a zero at the end.
pub fn command_line(command: &ChildCommand) -> (r: Vec<u16>)
    ensures
        r@ == wide(line_of(command.words())).push(0),
{
    let mut parts: Vec<String> = Vec::new();
    match &command.arg0 {
        Some(arg0) => {
            parts.push(quote_arg(arg0));
        },
        None => {
            parts.push(quote_arg(&command.program));
        },
    }
    let ghost first = parts@[0]@;
    let mut i: usize = 0;
    while i < command.args.len()
        invariant
            i <= command.args@.len(),
            parts@.len() == i + 1,
            parts@[0]@ == first,
            forall|j: int|
                0 <= j < i ==> (#[trigger] parts@[j + 1])@ == quoted(command.args@[j]@),
        decreases command.args.len() - i,
    {
        parts.push(quote_arg(&command.args[i]));
        i = i + 1;
    }
    proof {
        let all = command.words().map_values(|word: Seq<char>| quoted(word));
        assert forall|k: int| 0 <= k < parts@.len() implies #[trigger] parts.deep_view()[k]
            == all[k] by {
            if k > 0 {
                assert(parts@[(k - 1) + 1]@ == quoted(command.args@[k - 1]@));
            }
        }
        assert(parts.deep_view() =~= all);
    }
    let line = text::join(&parts, " ");
    wide_null(&line)
}

/// Variables set one after the other: a later one takes the place of an earlier
/// one of the same name.
pub open spec fn settled(
    start: Map<Seq<char>, Seq<char>>,
    pairs: Seq<(String, String)>,
) -> Map<Seq<char>, Seq<char>>
    decreases pairs.len(),
{
    if pairs.len() == 0 {
        start
    } else {
        settled(start, pairs.drop_last()).insert(pairs.last().0@, pairs.last().1@)
    }
}

/// Whether a name comes before another one.
pub open spec fn comes_before(a: Seq<char>, b: Seq<char>) -> bool {
    a != b && text::comes_first(a, b)
}

/// Whether names are listed in order, each once.
pub open spec fn ascending(names: Seq<Seq<char>>) -> bool {
    forall|i: int, j: int|
        0 <= i < j < names.len() ==> #[trigger] comes_before(names[i], names[j])
}

/// Whether these are all the names, in order, each once.
pub open spec fn in_order(names: Seq<Seq<char>>, all: Set<Seq<char>>) -> bool {
    &&& ascending(names)
    &&& forall|name: Seq<char>| #[trigger] names.contains(name) <==> all.contains(name)
}

/// The lines `name=value` for some names, each with a zero at its end.
pub open spec fn env_lines(
    names: Seq<Seq<char>>,
    env: Map<Seq<char>, Seq<char>>,
) -> Seq<u16>
    decreases names.len(),
{
    if names.len() == 0 {
        Seq::empty()
    } else {
        env_lines(names.drop_last(), env) + env_line(names.last(), env[names.last()])
    }
}

/// The line `name=value` with a zero at its end.
pub open spec fn env_line(name: Seq<char>, value: Seq<char>) -> Seq<u16> {
    (wide(name).push(0x3d) + wide(value)).push(0)
}

/// Sets variables one after the other.
fn settle(env: &mut Table<String, String>, pairs: &Vec<(String, String)>)
    ensures
        final(env)@ == settled(old(env)@, pairs@),
{
    let ghost start = env@;
    let mut i: usize = 0;
    assert(pairs@.take(0).len() == 0);
    while i < pairs.len()
        invariant
            i <= pairs@.len(),
            env@ == settled(start, pairs@.take(i as int)),
        decreases pairs.len() - i,
    {
        assert(pairs@.take(i + 1).drop_last() =~= pairs@.take(i as int));
        env.insert(pairs[i].0.clone(), pairs[i].1.clone());
        i = i + 1;
    }
    assert(pairs@.take(i as int) =~= pairs@);
}

/// A name put in its place keeps names in order.
proof fn lemma_placed(names: Seq<Seq<char>>, at: int, name: Seq<char>)
    requires
        ascending(names),
        0 <= at <= names.len(),
        !names.contains(name),
        forall|a: int| 0 <= a < at ==> text::comes_first(#[trigger] names[a], name),
        at < names.len() ==> text::comes_first(name, names[at]),
    ensures
        ascending(names.insert(at, name)),
{
    let all = names.insert(at, name);
    assert forall|i: int, j: int| 0 <= i < j < all.len() implies #[trigger] comes_before(
        all[i],
        all[j],
    ) by {
        let x = if i < at {
            i
        } else {
            i - 1
        };
        let y = if j < at {
            j
        } else {
            j - 1
        };
        if i == at {
            assert(all[j] == names[y]);
            if y > at {
                assert(comes_before(names[at], names[y]));
                text::lemma_comes_first_on(name, names[at], names[y]);
            }
        } else if j == at {
            assert(all[i] == names[i]);
        } else {
            assert(comes_before(names[x], names[y]));
        }
    }
}

/// Puts a name in its place.
fn place(names: &mut Vec<String>, name: String)
    requires
        ascending(old(names).deep_view()),
        !old(names).deep_view().contains(name@),
    ensures
        ascending(final(names).deep_view()),
        forall|other: Seq<char>| #[trigger]
            final(names).deep_view().contains(other) <==> (old(names).deep_view().contains(other)
                || other == name@),
{
    let ghost before = names.deep_view();
    let mut at: usize = 0;
    while at < names.len() && text::precedes(&names[at], &name)
        invariant
            at <= names@.len(),
            before == names.deep_view(),
            forall|a: int| 0 <= a < at ==> text::comes_first(#[trigger] before[a], name@),
        decreases names.len() - at,
    {
        assert(before[at as int] == names@[at as int]@);
        at = at + 1;
    }
    let ghost new = name@;
    proof {
        if at < names@.len() {
            assert(before[at as int] == names@[at as int]@);
            text::lemma_comes_first_total(before[at as int], new);
        }
        lemma_placed(before, at as int, new);
    }
    names.insert(at, name);
    proof {
        let after = names.deep_view();
        assert(after =~= before.insert(at as int, new));
        assert forall|other: Seq<char>| #[trigger] after.contains(other) <==> (before.contains(
            other,
        ) || other == new) by {
            assert(after[at as int] == new);
            if before.contains(other) {
                let i = choose|i: int| 0 <= i < before.len() && before[i] == other;
                assert(after[if i < at {
                    i
                } else {
                    i + 1
                }] == other);
            }
            if after.contains(other) {
                let i = choose|i: int| 0 <= i < after.len() && after[i] == other;
                if i < at {
                    assert(before[i] == other);
                } else if i > at {
                    assert(before[i - 1] == other);
                }
            }
        }
    }
}

/// The names of variables in order.
fn ordered_names(env: &Table<String, String>) -> (r: Vec<String>)
    ensures
        in_order(r.deep_view(), env@.dom()),
{
    let keys = env.keys();
    let mut out: Vec<String> = Vec::new();
    let mut i: usize = 0;
    while i < keys.len()
        invariant
            i <= keys@.len(),
            forall|a: int, b: int|
                0 <= a < b < keys@.len() ==> (#[trigger] keys@[a])@ != (#[trigger] keys@[b])@,
            ascending(out.deep_view()),
            forall|name: Seq<char>| #[trigger]
                out.deep_view().contains(name) <==> exists|j: int|
                    0 <= j < i && (#[trigger] keys@[j])@ == name,
        decreases keys.len() - i,
    {
        let ghost before = out.deep_view();
        place(&mut out, keys[i].clone());
        proof {
            assert forall|name: Seq<char>| #[trigger]
                out.deep_view().contains(name) <==> exists|j: int|
                    0 <= j < i + 1 && (#[trigger] keys@[j])@ == name by {
                if exists|j: int| 0 <= j < i + 1 && (#[trigger] keys@[j])@ == name {
                    let j = choose|j: int| 0 <= j < i + 1 && (#[trigger] keys@[j])@ == name;
                    if j < i {
                        assert(before.contains(name));
                    }
                }
                if before.contains(name) {
                    let j = choose|j: int| 0 <= j < i && (#[trigger] keys@[j])@ == name;
                    assert(keys@[j]@ == name);
                }
                if name == keys@[i as int]@ {
                    assert(keys@[i as int]@ == name);
                }
            }
        }
        i = i + 1;
    }
    proof {
        let names = out.deep_view();
        assert forall|name: Seq<char>| #[trigger] names.contains(name) <==> env@.dom().contains(
            name,
        ) by {
            if names.contains(name) {
                let j = choose|j: int| 0 <= j < i && (#[trigger] keys@[j])@ == name;
                assert(env@.contains_key(keys@[j]@));
            }
            if env@.dom().contains(name) {
                assert(env@.contains_key(name));
            }
        }
    }
    out
}

impl ChildCommand {
    /// The environment of the child, given the one that it may inherit.
    pub open spec fn environment(self, inherited: Seq<(String, String)>) -> Map<Seq<char>, Seq<char>> {
        let start = if self.clear_env {
            Map::empty()
        } else {
            settled(Map::empty(), inherited)
        };
        settled(start, self.env@)
    }
}

/// The environment block of a child, given the environment that it may inherit:
/// the variables in the order of their names, and a zero at the end. There is
/// none where the child inherits everything and nothing is set.
pub fn environment_block(command: &ChildCommand, inherited: &Vec<(String, String)>) -> (r: Option<
    Vec<u16>,
>)
    ensures
        if !command.clear_env && command.env@.len() == 0 {
            r is None
        } else {
            let env = command.environment(inherited@);
            r matches Some(block) && exists|names: Seq<Seq<char>>| #[trigger]
                in_order(names, env.dom()) && block@ == env_lines(names, env).push(0)
        },
{
    if !command.clear_env && command.env.len() == 0 {
        return None;
    }
    let mut env: Table<String, String> = Table::new();
    if !command.clear_env {
        settle(&mut env, inherited);
    }
    settle(&mut env, &command.env);
    assert(env@ == command.environment(inherited@));
    let names = ordered_names(&env);
    let ghost listed = names.deep_view();
    let mut block: Vec<u16> = Vec::new();
    let mut i: usize = 0;
    assert(listed.take(0).len() == 0);
    while i < names.len()
        invariant
            i <= names@.len(),
            listed == names.deep_view(),
            in_order(listed, env@.dom()),
            block@ == env_lines(listed.take(i as int), env@),
        decreases names.len() - i,
    {
        let ghost before = block@;
        proof {
            assert(listed.take(i + 1).drop_last() =~= listed.take(i as int));
            assert(listed.take(i + 1).last() == names@[i as int]@);
            assert(listed.contains(listed[i as int]));
        }
        match env.get(&names[i]) {
            Some(value) => {
                push_wide(&mut block, &names[i]);
                block.push(0x3d);
                push_wide(&mut block, value);
                block.push(0);
                assert(block@ =~= before + env_line(names@[i as int]@, value@));
            },
            None => {},
        }
        i = i + 1;
    }
    assert(listed.take(i as int) =~= listed);
    block.push(0);
    assert(in_order(listed, command.environment(inherited@).dom()));
    Some(block)
}

/// What a child is sent.
#[derive(Debug, Clone, Copy, PartialEq, Eq, Structural)]
pub enum Signal {
    /// To interrupt what it does.
    INT,
    /// To end.
    TERM,
    /// To end at once.
    KILL,
    /// To end, as its terminal is gone.
    HUP,
}

/// What is done to a child.
#[derive(Debug, Clone, Copy, PartialEq, Eq, Structural)]
pub enum KillAction {
    /// The interrupt key is typed; see [`interrupt_child`].
    TypeInterrupt,
    /// All its processes are ended.
    TerminateJob,
    /// Its process is ended.
    TerminateProcess,
}

/// The bytes that are typed to interrupt a child.
pub fn interrupt_child() -> (r: Vec<u8>)
    ensures
        r@ == seq![0x03u8],
{
    let mut keys: Vec<u8> = Vec::new();
    keys.push(0x03);
    assert(keys@ =~= seq![0x03u8]);
    keys
}

/// What a signal to a child leads to.
pub fn kill_child(signal: Signal, has_job: bool) -> (r: KillAction)
    ensures
        r == if signal is INT {
            KillAction::TypeInterrupt
        } else if has_job {
            KillAction::TerminateJob
        } else {
            KillAction::TerminateProcess
        },
{
    match signal {
        Signal::INT => KillAction::TypeInterrupt,
        Signal::TERM | Signal::KILL | Signal::HUP => if has_job {
            KillAction::TerminateJob
        } else {
            KillAction::TerminateProcess
        },
    }
}

/// The answer of the system that a process has ended.
pub const WAIT_OBJECT_0: u32 = 0;

/// The answer of the system that a process runs on.
pub const WAIT_TIMEOUT: u32 = 258;

/// The answer of the system that a wait failed.
pub const WAIT_FAILED: u32 = 0xffff_ffff;

/// What a look at a child shows.
#[derive(Debug, PartialEq, Eq)]
pub enum WaitVerdict {
    /// It has ended: its exit code is to be read.
    Ended,
    /// It runs on.
    Running,
    /// The last error of the system is to be reported.
    SystemError,
    /// The answer cannot be understood.
    Unexpected(IoFailure),
}

/// What a look at a child shows, given the answer of the system.
pub fn try_wait_child(answer: u32) -> (r: WaitVerdict)
    ensures
        if answer == WAIT_OBJECT_0 {
            r is Ended
        } else if answer == WAIT_TIMEOUT {
            r is Running
        } else if answer == WAIT_FAILED {
            r is SystemError
        } else {
            r matches WaitVerdict::Unexpected(failure) && failure@ == crate::startup::in_words(
                "unexpected process wait result"@,
            )
        },
{
    if answer == WAIT_OBJECT_0 {
        WaitVerdict::Ended
    } else if answer == WAIT_TIMEOUT {
        WaitVerdict::Running
    } else if answer == WAIT_FAILED {
        WaitVerdict::SystemError
    } else {
        WaitVerdict::Unexpected(IoFailure::other("unexpected process wait result"))
    }
}

/// What the end of a wait for a child shows, given the answer of the system.
pub fn wait_child(answer: u32) -> (r: WaitVerdict)
    ensures
        if answer == WAIT_FAILED {
            r is SystemError
        } else {
            r is Ended
        },
{
    if answer == WAIT_FAILED {
        WaitVerdict::SystemError
    } else {
        WaitVerdict::Ended
    }
}

/// How many words of memory the attributes of a child take, given their size in
/// bytes and that of a word. There are none where the system gave no size.
pub fn attribute_words(size: usize, word: usize) -> (r: Option<usize>)
    requires
        word > 0,
    ensures
        match r {
            Some(words) => size > 0 && (words - 1) * word < size <= words * word,
            None => size == 0,
        },
{
    if size == 0 {
        return None;
    }
    let whole: usize = size / word;
    proof {
        vstd::arithmetic::div_mod::lemma_fundamental_div_mod(size as int, word as int);
        vstd::arithmetic::div_mod::lemma_mod_bound(size as int, word as int);
        assert(whole * word == word * whole) by (nonlinear_arith);
        assert((whole - 1) * word == whole * word - word) by (nonlinear_arith);
        assert((whole + 1) * word == whole * word + word) by (nonlinear_arith);
        assert(whole <= size) by (nonlinear_arith)
            requires
                word > 0,
                word * whole <= size,
        ;
    }
    if size % word == 0 {
        Some(whole)
    } else {
        assert(whole < size) by (nonlinear_arith)
            requires
                word > 0,
                word * whole < size,
        ;
        Some(whole + 1)
    }
}

/// How far the start of a child has come.
#[derive(Debug, Clone, Copy, PartialEq, Eq, Structural)]
pub enum SpawnStage {
    /// A job for its processes is made.
    MakeJob,
    /// The attributes that tie it to its terminal are made.
    MakeAttributes,
    /// The process is made, and does not run yet.
    CreateProcess,
    /// The process is put in the job.
    AssignJob,
    /// The process is let run.
    Resume,
    /// The number of the process is taken.
    TakeId,
}

/// What the start of a child does next.
#[derive(Debug, Clone, Copy, PartialEq, Eq, Structural)]
pub enum SpawnStep {
    /// Go on with this stage.
    Go(SpawnStage),
    /// End: the child runs.
    Running,
    /// End with the error of the stage.
    Fail,
    /// End the process that was made, and end with the error of the stage.
    TerminateAndFail,
}

/// What the start of a child does after a stage. A process that was made but
/// cannot be put in its job or let run does not stay.
pub fn spawn_child(stage: SpawnStage, succeeded: bool) -> (r: SpawnStep)
    ensures
        r == if succeeded {
            match stage {
                SpawnStage::MakeJob => SpawnStep::Go(SpawnStage::MakeAttributes),
                SpawnStage::MakeAttributes => SpawnStep::Go(SpawnStage::CreateProcess),
                SpawnStage::CreateProcess => SpawnStep::Go(SpawnStage::AssignJob),
                SpawnStage::AssignJob => SpawnStep::Go(SpawnStage::Resume),
                SpawnStage::Resume => SpawnStep::Go(SpawnStage::TakeId),
                SpawnStage::TakeId => SpawnStep::Running,
            }
        } else if stage is AssignJob || stage is Resume {
            SpawnStep::TerminateAndFail
        } else {
            SpawnStep::Fail
        },
{
    if succeeded {
        match stage {
            SpawnStage::MakeJob => SpawnStep::Go(SpawnStage::MakeAttributes),
            SpawnStage::MakeAttributes => SpawnStep::Go(SpawnStage::CreateProcess),
            SpawnStage::CreateProcess => SpawnStep::Go(SpawnStage::AssignJob),
            SpawnStage::AssignJob => SpawnStep::Go(SpawnStage::Resume),
            SpawnStage::Resume => SpawnStep::Go(SpawnStage::TakeId),
            SpawnStage::TakeId => SpawnStep::Running,
        }
    } else {
        match stage {
            SpawnStage::AssignJob | SpawnStage::Resume => SpawnStep::TerminateAndFail,
            _ => SpawnStep::Fail,
        }
    }
}

} // verus!

//! Laws of option values.
use vstd::prelude::*;

use crate::laws::texts::{
    blank, law_find, law_lowercase, law_numbers_are_read, law_split_takes_pieces_off,
    law_trimmed_between_white_space, lemma_tight_is_trimmed, stands_at, tight,
};
use crate::names::{ErrorView, OptionScopeSelector, ScopeSelector};
use crate::options::{
    assigned, is_next_place, is_size, key_parts, next_place, nonempty, rooted_scope, CommandsView,
    GlobalRoot, KeyParts, OptionQuery, OptionValueType, QuestionView, ReadingView, SetOptionMode,
    ValueView,
};
use crate::text;

verus! {

/// Whether a text is a word in capital or small letters, or in both.
pub open spec fn spells(s: Seq<char>, word: Seq<char>) -> bool {
    &&& s.len() == word.len()
    &&& forall|i: int|
        0 <= i < s.len() ==> {
            ||| #[trigger] s[i] == word[i]
            ||| 97 <= word[i] as int <= 122 && s[i] as int == word[i] as int - 32
        }
}

/// A spelling of a small word reads as that word.
proof fn lemma_spelling(s: Seq<char>, word: Seq<char>)
    requires
        spells(s, word),
        forall|i: int| 0 <= i < word.len() ==> !(65 <= (#[trigger] word[i]) as int <= 90),
    ensures
        text::lowercase(s) == word,
{
    law_lowercase(s);
    assert forall|i: int| 0 <= i < s.len() implies text::lowercase(s)[i] == word[i] by {
        assert(s[i] == word[i] || 97 <= word[i] as int <= 122 && s[i] as int == word[i] as int
            - 32);
    }
    assert(text::lowercase(s) =~= word);
}

/// What reads as a small word is a spelling of it.
proof fn lemma_reads_as(s: Seq<char>, word: Seq<char>)
    requires
        text::lowercase(s) == word,
    ensures
        spells(s, word),
{
    law_lowercase(s);
    assert forall|i: int| 0 <= i < s.len() implies {
        ||| #[trigger] s[i] == word[i]
        ||| 97 <= word[i] as int <= 122 && s[i] as int == word[i] as int - 32
    } by {
        assert(text::lowercase(s)[i] == word[i]);
    }
}

/// Whether a text is one of the words that turn a flag on.
pub open spec fn on_word(s: Seq<char>) -> bool {
    spells(s, seq!['o', 'n']) || spells(s, seq!['1']) || spells(s, seq!['y', 'e', 's'])
}

/// Whether a text is one of the words that turn a flag off.
pub open spec fn off_word(s: Seq<char>) -> bool {
    spells(s, seq!['o', 'f', 'f']) || spells(s, seq!['0']) || spells(s, seq!['n', 'o'])
}

/// The words for flags, as they are read.
proof fn lemma_flag_words(s: Seq<char>)
    ensures
        crate::options::says_on(s) == on_word(s),
        crate::options::says_off(s) == off_word(s),
        on_word(s) || off_word(s) ==> tight(s) && s.len() > 0,
        !(on_word(s) && off_word(s)),
{
    reveal_strlit("on");
    reveal_strlit("1");
    reveal_strlit("yes");
    reveal_strlit("off");
    reveal_strlit("0");
    reveal_strlit("no");
    assert("on"@ =~= seq!['o', 'n']);
    assert("1"@ =~= seq!['1']);
    assert("yes"@ =~= seq!['y', 'e', 's']);
    assert("off"@ =~= seq!['o', 'f', 'f']);
    assert("0"@ =~= seq!['0']);
    assert("no"@ =~= seq!['n', 'o']);
    let low = text::lowercase(s);
    if spells(s, "on"@) {
        lemma_spelling(s, "on"@);
        assert(low[0] == 'o' && low[1] == 'n');
    }
    if spells(s, "1"@) {
        lemma_spelling(s, "1"@);
        assert(low[0] == '1');
    }
    if spells(s, "yes"@) {
        lemma_spelling(s, "yes"@);
    }
    if spells(s, "off"@) {
        lemma_spelling(s, "off"@);
        assert(low[0] == 'o');
    }
    if spells(s, "0"@) {
        lemma_spelling(s, "0"@);
    }
    if spells(s, "no"@) {
        lemma_spelling(s, "no"@);
        assert(low[0] == 'n' && low[1] == 'o');
    }
    if low == "on"@ || low == "1"@ || low == "yes"@ || low == "off"@ || low == "0"@ || low
        == "no"@ {
        lemma_reads_as(s, low);
    }
}

/// A flag is turned on by on, 1 and yes and off by off, 0 and no, in capital or small
/// letters and with white space around them. Without a word it changes over. Nothing
/// else is accepted.
pub proof fn law_flags(
    query: OptionQuery,
    front: Seq<char>,
    word: Seq<char>,
    back: Seq<char>,
    current: Option<Seq<char>>,
    reading: ReadingView,
)
    requires
        query.value_type is Flag,
        blank(front),
        blank(back),
        tight(word),
    ensures
        query.scalar_value(Some("on"@), current, reading) == Ok::<ValueView, ErrorView>(
            ValueView::Flag(true),
        ),
        query.scalar_value(Some("1"@), current, reading) == Ok::<ValueView, ErrorView>(
            ValueView::Flag(true),
        ),
        query.scalar_value(Some("yes"@), current, reading) == Ok::<ValueView, ErrorView>(
            ValueView::Flag(true),
        ),
        query.scalar_value(Some("off"@), current, reading) == Ok::<ValueView, ErrorView>(
            ValueView::Flag(false),
        ),
        query.scalar_value(Some("0"@), current, reading) == Ok::<ValueView, ErrorView>(
            ValueView::Flag(false),
        ),
        query.scalar_value(Some("no"@), current, reading) == Ok::<ValueView, ErrorView>(
            ValueView::Flag(false),
        ),
        on_word(word) ==> query.scalar_value(Some(front + word + back), current, reading) == Ok::<
            ValueView,
            ErrorView,
        >(ValueView::Flag(true)),
        off_word(word) ==> query.scalar_value(Some(front + word + back), current, reading) == Ok::<
            ValueView,
            ErrorView,
        >(ValueView::Flag(false)),
        word.len() == 0 ==> query.scalar_value(Some(front + word + back), current, reading) == Ok::<
            ValueView,
            ErrorView,
        >(ValueView::Flag(current != Some("on"@))),
        query.scalar_value(None, Some("on"@), reading) == Ok::<ValueView, ErrorView>(
            ValueView::Flag(false),
        ),
        query.scalar_value(None, Some("off"@), reading) == Ok::<ValueView, ErrorView>(
            ValueView::Flag(true),
        ),
        query.scalar_value(None, None, reading) == Ok::<ValueView, ErrorView>(
            ValueView::Flag(true),
        ),
        (word.len() > 0 && !on_word(word) && !off_word(word)) ==> query.scalar_value(
            Some(front + word + back),
            current,
            reading,
        ) == Err::<ValueView, ErrorView>(
            ErrorView::InvalidSetOption(query.canonical_name@ + " expects on or off"@),
        ),
{
    reveal_strlit("on");
    reveal_strlit("1");
    reveal_strlit("yes");
    reveal_strlit("off");
    reveal_strlit("0");
    reveal_strlit("no");
    law_trimmed_between_white_space(front, word, back);
    lemma_flag_words(word);
    lemma_flag_words("on"@);
    lemma_flag_words("1"@);
    lemma_flag_words("yes"@);
    lemma_flag_words("off"@);
    lemma_flag_words("0"@);
    lemma_flag_words("no"@);
    assert(spells("on"@, seq!['o', 'n']));
    assert(spells("1"@, seq!['1']));
    assert(spells("yes"@, seq!['y', 'e', 's']));
    assert(spells("off"@, seq!['o', 'f', 'f']));
    assert(spells("0"@, seq!['0']));
    assert(spells("no"@, seq!['n', 'o']));
    lemma_tight_is_trimmed("on"@);
    lemma_tight_is_trimmed("1"@);
    lemma_tight_is_trimmed("yes"@);
    lemma_tight_is_trimmed("off"@);
    lemma_tight_is_trimmed("0"@);
    lemma_tight_is_trimmed("no"@);
    assert("on"@.len() != "off"@.len());
}

/// A number option takes every number from its least one on, written in digits, and
/// no other text.
pub proof fn law_number_options(
    query: OptionQuery,
    minimum: u32,
    n: u32,
    raw: Seq<char>,
    current: Option<Seq<char>>,
    reading: ReadingView,
)
    requires
        query.value_type == (OptionValueType::Number { minimum }),
    ensures
        n >= minimum ==> query.scalar_value(Some(text::decimal(n as nat)), current, reading) == Ok::<
            ValueView,
            ErrorView,
        >(ValueView::Number(n)),
        n < minimum ==> query.scalar_value(Some(text::decimal(n as nat)), current, reading) == Err::<
            ValueView,
            ErrorView,
        >(
            ErrorView::InvalidSetOption(
                query.canonical_name@ + " expects a number greater than or equal to "@
                    + text::decimal(minimum as nat),
            ),
        ),
        (exists|i: int| 0 < i < raw.len() && !(48 <= (#[trigger] raw[i]) as int <= 57))
            ==> query.scalar_value(Some(raw), current, reading) is Err,
        query.scalar_value(None, current, reading) == Err::<ValueView, ErrorView>(
            ErrorView::InvalidSetOption("empty value"@),
        ),
{
    law_numbers_are_read(raw, n);
}

/// A choice option takes the choices it has and refuses others. Without a text it
/// changes over between two choices, and stays where there are more.
pub proof fn law_choice_options(
    query: OptionQuery,
    choices: Vec<String>,
    raw: Seq<char>,
    current: Option<Seq<char>>,
    reading: ReadingView,
)
    requires
        query.value_type == OptionValueType::Choice(choices),
    ensures
        ({
            let words = choices.deep_view();
            let given = query.scalar_value(Some(raw), current, reading);
            let none = query.scalar_value(None, current, reading);
            &&& raw.len() > 0 && words.contains(raw) ==> given == Ok::<ValueView, ErrorView>(
                ValueView::Choice(raw),
            )
            &&& raw.len() > 0 && !words.contains(raw) ==> given == Err::<ValueView, ErrorView>(
                ErrorView::InvalidSetOption(
                    query.canonical_name@ + " expects one of: "@ + text::joined(words, ", "@),
                ),
            )
            &&& words.len() == 2 ==> {
                &&& current is None || current == Some(words[0]) ==> none == Ok::<
                    ValueView,
                    ErrorView,
                >(ValueView::Choice(words[1]))
                &&& current is Some && current != Some(words[0]) ==> none == Ok::<
                    ValueView,
                    ErrorView,
                >(ValueView::Choice(words[0]))
            }
            &&& words.len() > 2 ==> {
                &&& current is None ==> none == Ok::<ValueView, ErrorView>(
                    ValueView::Choice(words[0]),
                )
                &&& current matches Some(present) ==> none == Ok::<ValueView, ErrorView>(
                    ValueView::Choice(present),
                )
            }
            &&& raw.len() == 0 ==> given == none
        }),
{
}

/// A text option takes any text, and one that is added stands behind the present one,
/// with the separator between them. A size must be two numbers with an x between
/// them, and a style must read as one, unless it is a format.
pub proof fn law_text_options(
    query: OptionQuery,
    raw: Seq<char>,
    present: Seq<char>,
    reading: ReadingView,
)
    requires
        query.value_type is String,
    ensures
        query.scalar_value(None, Some(present), reading) == Err::<ValueView, ErrorView>(
            ErrorView::InvalidSetOption("empty value"@),
        ),
        (query.canonical_name@ != "default-size"@ && query.effects.bits & 1 != 1) ==> {
            &&& query.scalar_value(Some(raw), None, reading) == Ok::<ValueView, ErrorView>(
                ValueView::String(raw),
            )
            &&& query.scalar_value(Some(raw), Some(present), reading) == Ok::<
                ValueView,
                ErrorView,
            >(ValueView::String(present + query.separator@ + raw))
        },
        (query.canonical_name@ != "default-size"@ && query.effects.bits & 1 == 1) ==> {
            let formatted = exists|j: int| stands_at(raw, "#{"@, j);
            &&& formatted || reading.is_style ==> query.scalar_value(Some(raw), None, reading)
                == Ok::<ValueView, ErrorView>(ValueView::String(raw))
            &&& !formatted && !reading.is_style ==> query.scalar_value(Some(raw), None, reading)
                == Err::<ValueView, ErrorView>(
                ErrorView::InvalidSetOption("invalid style: "@ + raw),
            )
            &&& !formatted ==> query.question(Some(raw), None) == QuestionView::Style(raw)
        },
        (query.canonical_name@ == "default-size"@ && !is_size(raw)) ==> query.scalar_value(
            Some(raw),
            None,
            reading,
        ) == Err::<ValueView, ErrorView>(
            ErrorView::InvalidSetOption("value is invalid: "@ + raw),
        ),
        (query.canonical_name@ == "default-size"@ && is_size(raw) && query.effects.bits & 1 != 1)
            ==> query.scalar_value(Some(raw), None, reading) == Ok::<ValueView, ErrorView>(
            ValueView::String(raw),
        ),
{
    law_find(raw, "#{"@);
    match text::find(raw, "#{"@) {
        Some(i) => {
            assert(stands_at(raw, "#{"@, i));
        },
        None => {},
    }
}

/// A size is digits, an x and digits, with at least one digit on each side.
pub proof fn law_sizes(width: Seq<char>, height: Seq<char>, s: Seq<char>)
    requires
        !width.contains('x'),
    ensures
        is_size(width + seq!['x'] + height) <==> width.len() > 0 && height.len() > 0 && (forall|
            i: int,
        |
            0 <= i < width.len() ==> 48 <= (#[trigger] width[i]) as int <= 57) && (forall|i: int|
            0 <= i < height.len() ==> 48 <= (#[trigger] height[i]) as int <= 57),
        !s.contains('x') ==> !is_size(s),
{
    reveal_strlit("x");
    assert("x"@ =~= seq!['x']);
    let whole = width + seq!['x'] + height;
    law_find(whole, "x"@);
    let at = width.len() as int;
    assert(whole.subrange(at, at + 1) =~= seq!['x']);
    assert(stands_at(whole, "x"@, at));
    assert forall|j: int| 0 <= j < at implies !stands_at(whole, "x"@, j) by {
        if stands_at(whole, "x"@, j) {
            assert(whole.subrange(j, j + 1)[0] == 'x');
            assert(width[j] == 'x');
        }
    }
    assert(whole.take(at) =~= width);
    assert(whole.skip(at + 1) =~= height);
    assert(text::find(whole, "x"@) == Some(at));
    crate::laws::texts::law_character_occurs(s, "x"@, 'x');
}

/// A colour option asks for the trimmed text to be read, and stores what was read; a
/// text that is none, and an empty one, is refused. A command option stores the
/// commands that were read, or says why there are none.
pub proof fn law_colour_and_command_options(
    query: OptionQuery,
    raw: Seq<char>,
    current: Option<Seq<char>>,
    reading: ReadingView,
)
    ensures
        query.value_type is Colour ==> {
            let value = query.scalar_value(Some(raw), current, reading);
            let empty = text::trimmed(raw).len() == 0;
            &&& !empty ==> query.question(Some(raw), current) == QuestionView::Colour(
                text::trimmed(raw),
            )
            &&& !empty && reading.colour is Some ==> value == Ok::<ValueView, ErrorView>(
                ValueView::Colour(reading.colour->0),
            )
            &&& empty || reading.colour is None ==> value == Err::<ValueView, ErrorView>(
                ErrorView::InvalidSetOption(query.canonical_name@ + " expects a colour value"@),
            )
        },
        query.value_type is Command ==> {
            let value = query.scalar_value(Some(raw), current, reading);
            &&& query.question(Some(raw), current) == QuestionView::Commands(raw)
            &&& match reading.commands {
                CommandsView::Commands(list) => value == Ok::<ValueView, ErrorView>(
                    ValueView::Command(list),
                ),
                CommandsView::Malformed(message) => value == Err::<ValueView, ErrorView>(
                    ErrorView::InvalidSetOption(
                        query.canonical_name@ + " expects a command list: "@ + message,
                    ),
                ),
            }
        },
{
    reveal_strlit(" expects a ");
    reveal_strlit("colour value");
    reveal_strlit(" expects a colour value");
    assert(query.canonical_name@ + " expects a "@ + "colour value"@ =~= query.canonical_name@
        + " expects a colour value"@);
}

/// A letter and a minus in front of a key stand for a modifier: c for control, m for
/// meta and s for shift, capital or small. A text without a minus has none.
pub proof fn law_modifiers(letter: char, rest: Seq<char>)
    ensures
        !rest.contains('-') ==> key_parts(rest) == (KeyParts {
            ctrl: false,
            meta: false,
            shift: false,
            rest,
        }),
        letter == 'c' || letter == 'C' ==> key_parts(seq![letter, '-'] + rest) == (KeyParts {
            ctrl: true,
            ..key_parts(rest)
        }),
        letter == 'm' || letter == 'M' ==> key_parts(seq![letter, '-'] + rest) == (KeyParts {
            meta: true,
            ..key_parts(rest)
        }),
        letter == 's' || letter == 'S' ==> key_parts(seq![letter, '-'] + rest) == (KeyParts {
            shift: true,
            ..key_parts(rest)
        }),
{
    reveal_strlit("-");
    reveal_strlit("c");
    reveal_strlit("m");
    reveal_strlit("s");
    assert("-"@ =~= seq!['-']);
    crate::laws::texts::law_character_occurs(rest, "-"@, '-');
    let whole = seq![letter, '-'] + rest;
    if letter != '-' {
        law_find(whole, "-"@);
        assert(whole.subrange(1, 2) =~= "-"@);
        assert(stands_at(whole, "-"@, 1));
        assert(!stands_at(whole, "-"@, 0)) by {
            if stands_at(whole, "-"@, 0) {
                assert(whole.subrange(0, 1)[0] == '-');
            }
        }
        assert(text::find(whole, "-"@) == Some(1int));
        let first = whole.take(1);
        assert(first =~= seq![letter]);
        assert(whole.skip(2) =~= rest);
        law_lowercase(first);
        let low = text::lowercase(first);
        assert(low.len() == 1);
        assert(low[0] as int == if 65 <= letter as int <= 90 {
            letter as int + 32
        } else {
            letter as int
        });
        if letter == 'c' || letter == 'C' {
            assert(low =~= "c"@);
        }
        if letter == 'm' || letter == 'M' {
            assert(low =~= "m"@);
            assert("m"@[0] != "c"@[0]);
        }
        if letter == 's' || letter == 'S' {
            assert(low =~= "s"@);
            assert("s"@[0] != "c"@[0]);
            assert("s"@[0] != "m"@[0]);
        }
    }
}

/// The modifiers of a key that is written out: control, meta and shift, in that
/// order.
pub open spec fn modifiers(parts: KeyParts) -> Seq<char> {
    let ctrl: Seq<char> = if parts.ctrl {
        seq!['C', '-']
    } else {
        Seq::empty()
    };
    let meta: Seq<char> = if parts.meta {
        seq!['M', '-']
    } else {
        Seq::empty()
    };
    let shift: Seq<char> = if parts.shift {
        seq!['S', '-']
    } else {
        Seq::empty()
    };
    ctrl + meta + shift
}

/// Whether a text spells a key by its name, and how that name is written.
pub open spec fn named(s: Seq<char>, name: Seq<char>) -> bool {
    ||| name == "None"@ && text::lowercase(s) == "none"@
    ||| name == "BSpace"@ && text::lowercase(s) == "bspace"@
    ||| name == "Enter"@ && text::lowercase(s) == "enter"@
    ||| name == "Space"@ && text::lowercase(s) == "space"@
    ||| name == "Tab"@ && text::lowercase(s) == "tab"@
    ||| name == "Up"@ && text::lowercase(s) == "up"@
    ||| name == "Down"@ && text::lowercase(s) == "down"@
    ||| name == "Left"@ && text::lowercase(s) == "left"@
    ||| name == "Right"@ && text::lowercase(s) == "right"@
    ||| name == "Home"@ && text::lowercase(s) == "home"@
    ||| name == "End"@ && text::lowercase(s) == "end"@
    ||| name == "Escape"@ && (text::lowercase(s) == "escape"@ || text::lowercase(s) == "esc"@)
}

/// How a key is written: its modifiers, and behind them its name with the usual
/// capitals, the number of a function key behind an F, or its one character, which is
/// a small letter where control is held.
pub proof fn law_keys(
    query: OptionQuery,
    raw: Seq<char>,
    name: Seq<char>,
    current: Option<Seq<char>>,
    reading: ReadingView,
)
    requires
        query.value_type is Key,
    ensures
        ({
            let parts = key_parts(text::trimmed(raw));
            let rest = parts.rest;
            let value = query.scalar_value(Some(raw), current, reading);
            let is_named = exists|other: Seq<char>| named(rest, other);
            &&& named(rest, name) && rest.len() > 0 ==> value == Ok::<ValueView, ErrorView>(
                ValueView::Key(modifiers(parts) + name),
            )
            &&& !is_named && rest.len() > 1 && (rest[0] == 'F' || rest[0] == 'f')
                && text::all_digits(rest.skip(1)) ==> value == Ok::<ValueView, ErrorView>(
                ValueView::Key(modifiers(parts) + seq!['F'] + rest.skip(1)),
            )
            &&& !is_named && rest.len() == 1 && rest[0] != 'f' && rest[0] != 'F' ==> {
                let c = if parts.ctrl && 65 <= rest[0] as int <= 90 {
                    text::lower(rest[0])
                } else {
                    rest[0]
                };
                value == Ok::<ValueView, ErrorView>(ValueView::Key(modifiers(parts) + seq![c]))
            }
            &&& rest.len() == 0 || (!is_named && rest.len() > 1 && !((rest[0] == 'F' || rest[0]
                == 'f') && text::all_digits(rest.skip(1)))) ==> value == Err::<
                ValueView,
                ErrorView,
            >(ErrorView::InvalidSetOption(query.canonical_name@ + " expects a key code"@))
        }),
{
    let parts = key_parts(text::trimmed(raw));
    let rest = parts.rest;
    reveal_strlit("C-");
    reveal_strlit("M-");
    reveal_strlit("S-");
    reveal_strlit(" expects a ");
    reveal_strlit("key code");
    reveal_strlit(" expects a key code");
    assert(query.canonical_name@ + " expects a "@ + "key code"@ =~= query.canonical_name@
        + " expects a key code"@);
    assert(crate::options::modifier_text(parts) =~= modifiers(parts));
    reveal_strlit("none");
    reveal_strlit("bspace");
    reveal_strlit("enter");
    reveal_strlit("space");
    reveal_strlit("tab");
    reveal_strlit("up");
    reveal_strlit("down");
    reveal_strlit("left");
    reveal_strlit("right");
    reveal_strlit("home");
    reveal_strlit("end");
    reveal_strlit("escape");
    reveal_strlit("esc");
    let word = text::lowercase(rest);
    match crate::options::named_key(word) {
        Some(known) => {
            assert(named(rest, known));
            if named(rest, name) {
                lemma_name_is_unique(rest, name, known);
            }
        },
        None => {
            assert forall|other: Seq<char>| !named(rest, other) by {
                if named(rest, other) {
                    assert(crate::options::named_key(word) is Some);
                }
            }
            if rest.len() > 0 {
                assert(modifiers(parts) + (seq!['F'] + rest.skip(1)) =~= modifiers(parts) + seq![
                    'F',
                ] + rest.skip(1));
            }
        },
    }
}

/// A key has one name.
proof fn lemma_name_is_unique(s: Seq<char>, a: Seq<char>, b: Seq<char>)
    requires
        named(s, a),
        named(s, b),
    ensures
        a == b,
{
    reveal_strlit("none");
    reveal_strlit("bspace");
    reveal_strlit("enter");
    reveal_strlit("space");
    reveal_strlit("tab");
    reveal_strlit("up");
    reveal_strlit("down");
    reveal_strlit("left");
    reveal_strlit("right");
    reveal_strlit("home");
    reveal_strlit("end");
    reveal_strlit("escape");
    reveal_strlit("esc");
    let word = text::lowercase(s);
    let (c, d) = (word[0], word[1]);
    assert("none"@.len() == 4 && "none"@[0] == 'n' && "none"@[1] == 'o');
    assert("bspace"@.len() == 6 && "bspace"@[0] == 'b' && "bspace"@[1] == 's');
    assert("enter"@.len() == 5 && "enter"@[0] == 'e' && "enter"@[1] == 'n');
    assert("space"@.len() == 5 && "space"@[0] == 's' && "space"@[1] == 'p');
    assert("tab"@.len() == 3 && "tab"@[0] == 't' && "tab"@[1] == 'a');
    assert("up"@.len() == 2 && "up"@[0] == 'u' && "up"@[1] == 'p');
    assert("down"@.len() == 4 && "down"@[0] == 'd' && "down"@[1] == 'o');
    assert("left"@.len() == 4 && "left"@[0] == 'l' && "left"@[1] == 'e');
    assert("right"@.len() == 5 && "right"@[0] == 'r' && "right"@[1] == 'i');
    assert("home"@.len() == 4 && "home"@[0] == 'h' && "home"@[1] == 'o');
    assert("end"@.len() == 3 && "end"@[0] == 'e' && "end"@[1] == 'n');
    assert("escape"@.len() == 6 && "escape"@[0] == 'e' && "escape"@[1] == 's');
    assert("esc"@.len() == 3 && "esc"@[0] == 'e' && "esc"@[1] == 's');
}

/// The name of a scope that an option can be at.
pub open spec fn scope_name(bit: u8) -> Seq<char> {
    if bit == 1 {
        "global"@
    } else if bit == 2 {
        "session"@
    } else if bit == 4 {
        "window"@
    } else {
        "pane"@
    }
}

/// The bit that stands for a scope: one for the server, two for sessions, four for
/// windows and eight for panes.
pub open spec fn bit_of(scope: OptionScopeSelector) -> u8 {
    if scope is ServerGlobal {
        1
    } else if scope is SessionGlobal || scope is Session {
        2
    } else if scope is WindowGlobal || scope is Window {
        4
    } else {
        8
    }
}

/// An option is refused at a scope that it does not have, and the message names the
/// scopes that it has. One without a mask is refused at none.
pub proof fn law_scopes(
    query: OptionQuery,
    scope: OptionScopeSelector,
    mode: SetOptionMode,
    value: Option<Seq<char>>,
    unset: bool,
    reading: ReadingView,
    id: u32,
    mask: u8,
    first: u8,
    second: u8,
)
    requires
        query.known == Some((id, mask)),
        mask & bit_of(scope) == 0,
        first == 1 || first == 2 || first == 4 || first == 8,
        second == 1 || second == 2 || second == 4 || second == 8,
    ensures
        ({
            let refusal = query.refusal(scope, mode, value, unset, reading);
            &&& mask == first ==> refusal == Some(
                ErrorView::InvalidSetOption(
                    query.canonical_name@ + " is only supported at "@ + scope_name(first)
                        + " scope"@,
                ),
            )
            &&& first < second && mask == first + second ==> refusal == Some(
                ErrorView::InvalidSetOption(
                    query.canonical_name@ + " is only supported at "@ + (scope_name(first)
                        + " or "@ + scope_name(second)) + " scope"@,
                ),
            )
            &&& refusal is Some
        }),
{
    assert(1u8 & 1 == 1 && 1u8 & 2 == 0 && 1u8 & 4 == 0 && 1u8 & 8 == 0) by (bit_vector);
    assert(2u8 & 1 == 0 && 2u8 & 2 == 2 && 2u8 & 4 == 0 && 2u8 & 8 == 0) by (bit_vector);
    assert(4u8 & 1 == 0 && 4u8 & 2 == 0 && 4u8 & 4 == 4 && 4u8 & 8 == 0) by (bit_vector);
    assert(8u8 & 1 == 0 && 8u8 & 2 == 0 && 8u8 & 4 == 0 && 8u8 & 8 == 8) by (bit_vector);
    assert(3u8 & 1 == 1 && 3u8 & 2 == 2 && 3u8 & 4 == 0 && 3u8 & 8 == 0) by (bit_vector);
    assert(5u8 & 1 == 1 && 5u8 & 2 == 0 && 5u8 & 4 == 4 && 5u8 & 8 == 0) by (bit_vector);
    assert(9u8 & 1 == 1 && 9u8 & 2 == 0 && 9u8 & 4 == 0 && 9u8 & 8 == 8) by (bit_vector);
    assert(6u8 & 1 == 0 && 6u8 & 2 == 2 && 6u8 & 4 == 4 && 6u8 & 8 == 0) by (bit_vector);
    assert(10u8 & 1 == 0 && 10u8 & 2 == 2 && 10u8 & 4 == 0 && 10u8 & 8 == 8) by (bit_vector);
    assert(12u8 & 1 == 0 && 12u8 & 2 == 0 && 12u8 & 4 == 4 && 12u8 & 8 == 8) by (bit_vector);
    let names = crate::options::scope_names(mask);
    let (a, b) = (scope_name(first), scope_name(second));
    if mask == first {
        assert(names =~= seq![a]);
    } else if first < second && mask == first + second {
        assert(names =~= seq![a, b]);
        assert(names.drop_last() =~= seq![a]);
        assert(text::joined(seq![a], " or "@) == a);
    }
}

/// At a scope that it has, an option that is neither a list nor a text cannot be
/// added to. Otherwise a change is refused where its value is, but for lists, flags,
/// choices and options that are unset, whose values are not looked at.
pub proof fn law_changes_are_accepted(
    query: OptionQuery,
    scope: OptionScopeSelector,
    mode: SetOptionMode,
    value: Option<Seq<char>>,
    unset: bool,
    reading: ReadingView,
)
    requires
        query.known matches Some(known) ==> known.1 & bit_of(scope) != 0,
    ensures
        ({
            let refusal = query.refusal(scope, mode, value, unset, reading);
            let text_or_list = query.is_array || query.value_type is String;
            &&& mode == SetOptionMode::Append && !text_or_list ==> refusal == Some(
                ErrorView::InvalidSetOption(query.canonical_name@ + " is not an array option"@),
            )
            &&& (mode == SetOptionMode::Replace || text_or_list) ==> {
                if unset || query.is_array || query.value_type is Flag
                    || query.value_type is Choice {
                    refusal is None
                } else {
                    &&& refusal is None <==> query.scalar_value(value, None, reading) is Ok
                    &&& refusal matches Some(error) ==> query.scalar_value(value, None, reading)
                        == Err::<ValueView, ErrorView>(error)
                }
            }
        }),
{
}

/// A scope without a place of its own is that of the tree in which the option has its
/// root; a session, a window and a pane stay what they are.
pub proof fn law_rooted_scopes(root: GlobalRoot, scope: ScopeSelector)
    ensures
        scope is Global && root is Server ==> rooted_scope(root, scope) is ServerGlobal,
        scope is Global && root is Session ==> rooted_scope(root, scope) is SessionGlobal,
        scope is Global && root is Window ==> rooted_scope(root, scope) is WindowGlobal,
        scope matches ScopeSelector::Session(name) ==> rooted_scope(root, scope)
            == OptionScopeSelector::Session(name),
        scope matches ScopeSelector::Window(window) ==> rooted_scope(root, scope)
            == OptionScopeSelector::Window(window),
        scope matches ScopeSelector::Pane(pane) ==> rooted_scope(root, scope)
            == OptionScopeSelector::Pane(pane),
{
}

/// Keeping what is not empty, for one text more in front.
proof fn lemma_kept_front(first: Seq<char>, rest: Seq<Seq<char>>)
    ensures
        (seq![first] + rest).filter(nonempty()) == if first.len() > 0 {
            seq![first] + rest.filter(nonempty())
        } else {
            rest.filter(nonempty())
        },
    decreases rest.len(),
{
    reveal(Seq::filter);
    let all = seq![first] + rest;
    if rest.len() == 0 {
        assert(all =~= seq![first]);
        assert(all.drop_last() =~= Seq::<Seq<char>>::empty());
        assert(rest.filter(nonempty()) =~= Seq::<Seq<char>>::empty());
        assert(all.drop_last().filter(nonempty()) =~= Seq::<Seq<char>>::empty());
        if first.len() > 0 {
            assert(all.filter(nonempty()) =~= seq![first]);
            assert(seq![first] + rest.filter(nonempty()) =~= seq![first]);
        }
    } else {
        assert(all.drop_last() =~= seq![first] + rest.drop_last());
        lemma_kept_front(first, rest.drop_last());
        assert(all.last() == rest.last());
        let kept = rest.drop_last().filter(nonempty());
        if nonempty()(rest.last()) {
            assert(seq![first] + kept.push(rest.last()) =~= (seq![first] + kept).push(rest.last()));
        }
    }
}

/// The values of a list are the trimmed pieces between commas, without the empty
/// ones, where the separator of the option has a comma in it. An option without a
/// separator takes the text as one value.
pub proof fn law_lists_are_divided(
    separator: Seq<char>,
    piece: Seq<char>,
    rest: Seq<char>,
    value: Seq<char>,
)
    requires
        separator.contains(','),
        !piece.contains(','),
    ensures
        assigned(value, Seq::empty()) == seq![value],
        assigned(piece, separator) == if text::trimmed(piece).len() > 0 {
            seq![text::trimmed(piece)]
        } else {
            Seq::empty()
        },
        assigned(piece + seq![','] + rest, separator) == assigned(piece, separator) + assigned(
            rest,
            separator,
        ),
{
    reveal_strlit(",");
    assert(","@ =~= seq![',']);
    crate::laws::texts::law_character_occurs(separator, ","@, ',');
    law_split_takes_pieces_off(piece, ',', rest);
    let trim = |s: Seq<char>| text::trimmed(s);
    let none: Seq<Seq<char>> = Seq::empty();
    let tail = text::split(rest, ","@).map_values(trim);
    let first = text::trimmed(piece);
    lemma_kept_front(first, none);
    assert(none.filter(nonempty()) =~= none) by {
        reveal(Seq::filter);
    }
    assert(text::split(piece, ","@).map_values(trim) =~= seq![first] + none);
    assert(seq![first] + none =~= seq![first]);
    lemma_kept_front(first, tail);
    assert(text::split(piece + seq![','] + rest, ","@).map_values(trim) =~= seq![first] + tail);
    assert(none + tail.filter(nonempty()) =~= tail.filter(nonempty()));
    assert(assigned(piece + seq![','] + rest, separator) =~= assigned(piece, separator) + assigned(
        rest,
        separator,
    ));
}

/// The same where the separator is one character other than a comma.
pub proof fn law_lists_are_divided_by_separator(c: char, piece: Seq<char>, rest: Seq<char>)
    requires
        c != ',',
        !piece.contains(c),
    ensures
        assigned(piece, seq![c]) == if text::trimmed(piece).len() > 0 {
            seq![text::trimmed(piece)]
        } else {
            Seq::empty()
        },
        assigned(piece + seq![c] + rest, seq![c]) == assigned(piece, seq![c]) + assigned(
            rest,
            seq![c],
        ),
{
    reveal_strlit(",");
    assert(","@ =~= seq![',']);
    crate::laws::texts::law_character_occurs(seq![c], ","@, ',');
    assert(!seq![c].contains(','));
    law_split_takes_pieces_off(piece, c, rest);
    let trim = |s: Seq<char>| text::trimmed(s);
    let none: Seq<Seq<char>> = Seq::empty();
    let tail = text::split(rest, seq![c]).map_values(trim);
    let first = text::trimmed(piece);
    lemma_kept_front(first, none);
    assert(none.filter(nonempty()) =~= none) by {
        reveal(Seq::filter);
    }
    assert(text::split(piece, seq![c]).map_values(trim) =~= seq![first] + none);
    assert(seq![first] + none =~= seq![first]);
    lemma_kept_front(first, tail);
    assert(text::split(piece + seq![c] + rest, seq![c]).map_values(trim) =~= seq![first] + tail);
    assert(none + tail.filter(nonempty()) =~= tail.filter(nonempty()));
    assert(assigned(piece + seq![c] + rest, seq![c]) =~= assigned(piece, seq![c]) + assigned(
        rest,
        seq![c],
    ));
}

/// The next place of a list is one behind its last, and the first in an empty list.
pub proof fn law_next_place(places: Set<u32>, last: u32)
    ensures
        (forall|k: u32| !(#[trigger] places.contains(k))) ==> next_place(places) == 0,
        (places.contains(last) && last < u32::MAX && forall|k: u32| #[trigger]
            places.contains(k) ==> k <= last) ==> next_place(places) == last + 1,
{
    if forall|k: u32| !(#[trigger] places.contains(k)) {
        assert(is_next_place(places, 0));
    } else if places.contains(last) && last < u32::MAX && forall|k: u32| #[trigger]
        places.contains(k) ==> k <= last {
        assert(is_next_place(places, (last + 1) as u32));
    }
}

/// Values that are stored as a new list stand at the places from zero on, in their
/// order, as far as they are accepted; the first that is not ends the list, and why
/// it was refused is told.
pub proof fn law_new_lists_count_from_zero(
    query: OptionQuery,
    values: Seq<Seq<char>>,
    readings: Seq<ReadingView>,
)
    requires
        values.len() <= u32::MAX,
    ensures
        ({
            let (items, error) = query.extended(Map::empty(), values, readings);
            &&& error is None ==> forall|k: u32| #[trigger]
                items.contains_key(k) <==> k < values.len()
            &&& forall|k: u32| #[trigger]
                items.contains_key(k) ==> k < values.len() && query.scalar_value(
                    Some(values[k as int]),
                    None,
                    readings[k as int],
                ) == Ok::<ValueView, ErrorView>(items[k])
            &&& error matches Some(e) ==> exists|i: int|
                0 <= i < values.len() && query.scalar_value(
                    Some(#[trigger] values[i]),
                    None,
                    readings[i],
                ) == Err::<ValueView, ErrorView>(e) && forall|k: u32| #[trigger]
                    items.contains_key(k) <==> k < i
        }),
    decreases values.len(),
{
    let fewer = values.drop_last();
    let (items, error) = query.extended(Map::empty(), values, readings);
    if values.len() > 0 {
        law_new_lists_count_from_zero(query, fewer, readings);
        let (before, early) = query.extended(Map::empty(), fewer, readings);
        let n = (values.len() - 1) as u32;
        if early is None {
            assert(next_place(before.dom()) == n) by {
                if n > 0 {
                    assert(before.contains_key((n - 1) as u32));
                    law_next_place(before.dom(), (n - 1) as u32);
                } else {
                    law_next_place(before.dom(), 0);
                }
            }
            assert(query.whole_item(values.last(), None) == values.last());
            if error is Some {
                assert(values[n as int] == values.last());
            }
        } else {
            let i = choose|i: int|
                0 <= i < fewer.len() && query.scalar_value(
                    Some(#[trigger] fewer[i]),
                    None,
                    readings[i],
                ) == Err::<ValueView, ErrorView>(early->0) && forall|k: u32| #[trigger]
                    before.contains_key(k) <==> k < i;
            assert(values[i] == fewer[i]);
        }
    }
}

/// Values that are added to a list stand behind all that it has, and leave those
/// alone.
pub proof fn law_added_values_stand_behind(
    query: OptionQuery,
    items: Map<u32, ValueView>,
    values: Seq<Seq<char>>,
    readings: Seq<ReadingView>,
    last: u32,
)
    requires
        last + values.len() <= u32::MAX,
        items.contains_key(last),
        forall|k: u32| #[trigger] items.contains_key(k) ==> k <= last,
    ensures
        ({
            let (after, error) = query.extended(items, values, readings);
            &&& forall|k: u32| #[trigger]
                items.contains_key(k) ==> after.contains_key(k) && after[k] == items[k]
            &&& forall|k: u32|
                k > last ==> (#[trigger] after.contains_key(k) ==> k <= last + values.len()
                    && query.scalar_value(
                    Some(values[k - last - 1]),
                    None,
                    readings[k - last - 1],
                ) == Ok::<ValueView, ErrorView>(after[k]))
            &&& error is None ==> forall|k: u32|
                last < k <= last + values.len() ==> #[trigger] after.contains_key(k)
            &&& forall|k: u32|
                k <= last ==> (#[trigger] after.contains_key(k) ==> items.contains_key(k))
        }),
    decreases values.len(),
{
    if values.len() > 0 {
        let fewer = values.drop_last();
        law_added_values_stand_behind(query, items, fewer, readings, last);
        let (before, early) = query.extended(items, fewer, readings);
        if early is None {
            let top = (last + fewer.len()) as u32;
            assert(before.contains_key(top));
            law_next_place(before.dom(), top);
            assert(query.whole_item(values.last(), None) == values.last());
        }
    }
}

/// What changes in a list: with an index, the value at that place, which an added
/// text follows; without one, all of it, or what stands behind.
pub proof fn law_list_changes(
    query: OptionQuery,
    items: Map<u32, ValueView>,
    value: Seq<char>,
    mode: SetOptionMode,
    current: Option<Seq<char>>,
    readings: Seq<ReadingView>,
)
    ensures
        ({
            let (after, error) = query.array_change(items, value, mode, current, readings);
            let values = assigned(value, query.separator@);
            match query.index {
                Some(index) => {
                    let added = mode == SetOptionMode::Append && current is Some
                        && query.value_type is String;
                    let whole = if added {
                        current->0 + value
                    } else {
                        value
                    };
                    let read = query.scalar_value(Some(whole), None, readings[0]);
                    &&& read matches Ok(item) ==> after == items.insert(index, item)
                        && error is None
                    &&& read matches Err(e) ==> after == items && error == Some(e)
                },
                None => {
                    &&& mode == SetOptionMode::Replace ==> (after, error) == query.extended(
                        Map::empty(),
                        values,
                        readings,
                    )
                    &&& mode == SetOptionMode::Append ==> (after, error) == query.extended(
                        items,
                        values,
                        readings,
                    )
                },
            }
        }),
{
}

/// The values that an option has from the start stand at the places from zero on, in
/// their order; one that is refused refuses them all.
pub proof fn law_first_values_count_from_zero(
    query: OptionQuery,
    values: Seq<Seq<char>>,
    readings: Seq<ReadingView>,
)
    requires
        values.len() <= u32::MAX,
    ensures
        match query.placed(values, readings) {
            Ok(items) => {
                &&& forall|k: u32| #[trigger] items.contains_key(k) <==> k < values.len()
                &&& forall|k: u32| #[trigger]
                    items.contains_key(k) ==> query.scalar_value(
                        Some(values[k as int]),
                        None,
                        readings[k as int],
                    ) == Ok::<ValueView, ErrorView>(items[k])
            },
            Err(error) => exists|i: int|
                0 <= i < values.len() && query.scalar_value(
                    Some(#[trigger] values[i]),
                    None,
                    readings[i],
                ) == Err::<ValueView, ErrorView>(error),
        },
    decreases values.len(),
{
    if values.len() > 0 {
        let fewer = values.drop_last();
        law_first_values_count_from_zero(query, fewer, readings);
        assert(query.whole_item(values.last(), None) == values.last());
        match query.placed(fewer, readings) {
            Ok(items) => {
                if query.placed(values, readings) is Err {
                    assert(values[values.len() - 1] == values.last());
                }
            },
            Err(error) => {
                let i = choose|i: int|
                    0 <= i < fewer.len() && query.scalar_value(
                        Some(#[trigger] fewer[i]),
                        None,
                        readings[i],
                    ) == Err::<ValueView, ErrorView>(error);
                assert(values[i] == fewer[i]);
            },
        }
    }
}

/// The texts of a list value: with an index the whole text, and without one its
/// pieces. What is asked about a piece is what is asked about it alone; an added piece
/// is asked about together with the present text.
pub proof fn law_list_texts(
    query: OptionQuery,
    value: Seq<char>,
    present: Seq<char>,
    mode: SetOptionMode,
)
    ensures
        query.index is Some ==> query.array_texts(value) == seq![value],
        query.index is None ==> query.array_texts(value) == assigned(value, query.separator@),
        query.item_question(value, None) == query.question(Some(value), None),
        (query.index is Some && query.value_type is String) ==> query.item_question(
            value,
            Some(present),
        ) == query.question(Some(present + value), None),
        (query.index is Some && mode == SetOptionMode::Append) ==> query.present(
            mode,
            Some(present),
        ) == Some(present),
        (query.index is None || mode == SetOptionMode::Replace) ==> query.present(
            mode,
            Some(present),
        ) is None,
{
}

} // verus!

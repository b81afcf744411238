//! Option changes: which are acceptable, and what is stored for them.
use vstd::prelude::*;

use crate::names::{viewed, ErrorView, OptionScopeSelector, ProtoError, ScopeSelector};
use crate::table::Table;
use crate::text;

verus! {

/// The server-wide scope.
pub const SCOPE_SERVER: u8 = 1;

/// The session scope.
pub const SCOPE_SESSION: u8 = 2;

/// The window scope.
pub const SCOPE_WINDOW: u8 = 4;

/// The pane scope.
pub const SCOPE_PANE: u8 = 8;

/// The effect that values are read as styles.
pub const EFFECT_STYLE_PARSE: u32 = 1;

/// What values an option takes.
#[derive(Debug, PartialEq, Eq)]
pub enum OptionValueType {
    /// Any text.
    String,
    /// A number that is not too small.
    Number {
        /// The least acceptable number.
        minimum: u32,
    },
    /// A key, with modifiers.
    Key,
    /// A colour.
    Colour,
    /// On or off.
    Flag,
    /// One of some words.
    Choice(Vec<String>),
    /// A list of commands.
    Command,
}

/// The place where the global value of an option is kept.
#[derive(Debug, Clone, Copy, PartialEq, Eq, Structural)]
pub enum GlobalRoot {
    /// With the server.
    Server,
    /// With the defaults of all sessions.
    Session,
    /// With the defaults of all windows.
    Window,
}

/// Whether a value takes the place of the present one or is added to it.
#[derive(Debug, Clone, Copy, PartialEq, Eq, Structural)]
pub enum SetOptionMode {
    /// It takes its place.
    Replace,
    /// It is added.
    Append,
}

/// What a change to an option sets off.
#[derive(Debug, Clone, Copy, PartialEq, Eq, Structural)]
pub struct OptionEffects {
    /// One bit for each effect.
    pub bits: u32,
}

impl OptionEffects {
    /// Whether an effect is among them.
    pub open spec fn has(self, effect: u32) -> bool {
        self.bits & effect == effect
    }

    /// Whether an effect is among them.
    pub fn contains(&self, effect: u32) -> (r: bool)
        ensures
            r == self.has(effect),
    {
        self.bits & effect == effect
    }

    /// Whether there are none.
    pub fn is_empty(&self) -> (r: bool)
        ensures
            r == (self.bits == 0),
    {
        self.bits == 0
    }
}

/// What is known of an option.
#[derive(Debug, PartialEq, Eq)]
pub struct OptionMetadata {
    /// The number of the option.
    pub id: u32,
    /// The name of the option.
    pub name: String,
    /// What values it takes.
    pub value_type: OptionValueType,
    /// The scopes at which it can be set, one bit each.
    pub scope_mask: u8,
    /// Where its global value is kept.
    pub global_root: GlobalRoot,
    /// Whether it holds a list of values.
    pub is_array: bool,
    /// What stands between values that are written together.
    pub separator: String,
    /// What a change sets off.
    pub effects: OptionEffects,
}

/// The bit of the scope that a selector lies in.
pub open spec fn scope_bit(scope: OptionScopeSelector) -> u8 {
    match scope {
        OptionScopeSelector::ServerGlobal => SCOPE_SERVER,
        OptionScopeSelector::SessionGlobal | OptionScopeSelector::Session(_) => SCOPE_SESSION,
        OptionScopeSelector::WindowGlobal | OptionScopeSelector::Window(_) => SCOPE_WINDOW,
        OptionScopeSelector::Pane(_) => SCOPE_PANE,
    }
}

/// An option that was asked for by name.
#[derive(Debug, PartialEq, Eq)]
pub struct OptionQuery {
    /// The full name of the option.
    pub canonical_name: String,
    /// The number and the scopes of the option, where it is a known one.
    pub known: Option<(u32, u8)>,
    /// What values it takes.
    pub value_type: OptionValueType,
    /// Whether it holds a list of values.
    pub is_array: bool,
    /// The place in the list that was asked for.
    pub index: Option<u32>,
    /// What stands between values that are written together.
    pub separator: String,
    /// What a change sets off.
    pub effects: OptionEffects,
}

/// A value in the form in which it is stored.
#[derive(Debug, PartialEq, Eq)]
pub enum StoredOptionValue {
    /// A text.
    String(String),
    /// A number.
    Number(u32),
    /// A key in its normal spelling.
    Key(String),
    /// A colour in its normal spelling.
    Colour(String),
    /// On or off.
    Flag(bool),
    /// One of the words of the option.
    Choice(String),
    /// The commands of a list.
    Command(Vec<String>),
}

/// The mathematical value of a [`StoredOptionValue`].
pub enum ValueView {
    /// A text.
    String(Seq<char>),
    /// A number.
    Number(u32),
    /// A key in its normal spelling.
    Key(Seq<char>),
    /// A colour in its normal spelling.
    Colour(Seq<char>),
    /// On or off.
    Flag(bool),
    /// One of the words of the option.
    Choice(Seq<char>),
    /// The commands of a list.
    Command(Seq<Seq<char>>),
}

impl View for StoredOptionValue {
    type V = ValueView;

    open spec fn view(&self) -> ValueView {
        match self {
            StoredOptionValue::String(s) => ValueView::String(s@),
            StoredOptionValue::Number(n) => ValueView::Number(*n),
            StoredOptionValue::Key(s) => ValueView::Key(s@),
            StoredOptionValue::Colour(s) => ValueView::Colour(s@),
            StoredOptionValue::Flag(b) => ValueView::Flag(*b),
            StoredOptionValue::Choice(s) => ValueView::Choice(s@),
            StoredOptionValue::Command(list) => ValueView::Command(list.deep_view()),
        }
    }
}

/// A command text that has been read.
#[derive(Debug, PartialEq, Eq)]
pub enum CommandReading {
    /// The commands in it.
    Commands(Vec<String>),
    /// Why it is not a list of commands.
    Malformed(String),
}

/// The mathematical value of a [`CommandReading`].
pub enum CommandsView {
    /// The commands in it.
    Commands(Seq<Seq<char>>),
    /// Why it is not a list of commands.
    Malformed(Seq<char>),
}

impl View for CommandReading {
    type V = CommandsView;

    open spec fn view(&self) -> CommandsView {
        match self {
            CommandReading::Commands(list) => CommandsView::Commands(list.deep_view()),
            CommandReading::Malformed(message) => CommandsView::Malformed(message@),
        }
    }
}

/// A text that a grammar is asked about.
#[derive(Debug, PartialEq, Eq)]
pub enum Question {
    /// None is asked.
    Nothing,
    /// Whether it is a style.
    Style(String),
    /// Which colour it is.
    Colour(String),
    /// Which commands it holds.
    Commands(String),
}

/// The mathematical value of a [`Question`].
pub enum QuestionView {
    /// None is asked.
    Nothing,
    /// Whether it is a style.
    Style(Seq<char>),
    /// Which colour it is.
    Colour(Seq<char>),
    /// Which commands it holds.
    Commands(Seq<char>),
}

impl View for Question {
    type V = QuestionView;

    open spec fn view(&self) -> QuestionView {
        match self {
            Question::Nothing => QuestionView::Nothing,
            Question::Style(s) => QuestionView::Style(s@),
            Question::Colour(s) => QuestionView::Colour(s@),
            Question::Commands(s) => QuestionView::Commands(s@),
        }
    }
}

impl DeepView for Question {
    type V = QuestionView;

    open spec fn deep_view(&self) -> QuestionView {
        self@
    }
}

/// What the grammars said of the text of a [`Question`]. Only the part that was
/// asked for counts.
#[derive(Debug, PartialEq, Eq)]
pub struct Reading {
    /// Whether it is a style.
    pub is_style: bool,
    /// The normal spelling of the colour that it is.
    pub colour: Option<String>,
    /// The commands that it holds.
    pub commands: CommandReading,
}

/// The mathematical value of a [`Reading`].
pub struct ReadingView {
    /// Whether it is a style.
    pub is_style: bool,
    /// The normal spelling of the colour that it is.
    pub colour: Option<Seq<char>>,
    /// The commands that it holds.
    pub commands: CommandsView,
}

impl View for Reading {
    type V = ReadingView;

    open spec fn view(&self) -> ReadingView {
        ReadingView {
            is_style: self.is_style,
            colour: self.colour.deep_view(),
            commands: self.commands@,
        }
    }
}

impl DeepView for Reading {
    type V = ReadingView;

    open spec fn deep_view(&self) -> ReadingView {
        self@
    }
}

/// Whether two readings say the same about what was asked.
pub open spec fn alike(question: QuestionView, a: ReadingView, b: ReadingView) -> bool {
    match question {
        QuestionView::Nothing => true,
        QuestionView::Style(_) => a.is_style == b.is_style,
        QuestionView::Colour(_) => a.colour == b.colour,
        QuestionView::Commands(_) => a.commands == b.commands,
    }
}

/// The error of a change that is not acceptable.
pub open spec fn refused(message: Seq<char>) -> ErrorView {
    ErrorView::InvalidSetOption(message)
}

/// The error for a value that is not there.
pub open spec fn empty_value() -> ErrorView {
    refused("empty value"@)
}

/// Builds [`empty_value`].
fn empty_value_error() -> (r: ProtoError)
    ensures
        r@ == empty_value(),
{
    ProtoError::InvalidSetOption("empty value".to_owned())
}

/// The error for a number that is none or too small.
pub open spec fn bad_number(name: Seq<char>, minimum: u32) -> ErrorView {
    refused(name + " expects a number greater than or equal to "@ + text::decimal(minimum as nat))
}

/// Builds [`bad_number`].
fn invalid_number(name: &String, minimum: u32) -> (r: ProtoError)
    ensures
        r@ == bad_number(name@, minimum),
{
    let mut message = name.clone();
    message.append(" expects a number greater than or equal to ");
    let number = text::decimal_of(minimum as u64);
    message.append(&number);
    ProtoError::InvalidSetOption(message)
}

/// The error for a value of the wrong kind.
pub open spec fn bad_kind(name: Seq<char>, label: Seq<char>) -> ErrorView {
    refused(name + " expects a "@ + label)
}

/// Builds [`bad_kind`].
fn invalid_integer(name: &String, label: &str) -> (r: ProtoError)
    ensures
        r@ == bad_kind(name@, label@),
{
    let mut message = name.clone();
    message.append(" expects a ");
    message.append(label);
    ProtoError::InvalidSetOption(message)
}

/// Whether a text is a size such as `80x24`.
pub open spec fn is_size(s: Seq<char>) -> bool {
    match text::split_first(s, "x"@) {
        Some((width, height)) => {
            &&& width.len() > 0
            &&& height.len() > 0
            &&& text::all_digits(width)
            &&& text::all_digits(height)
        },
        None => false,
    }
}

/// Computes [`is_size`].
fn matches_default_size_pattern(value: &str) -> (r: bool)
    ensures
        r == is_size(value@),
{
    match text::split_once(value, "x") {
        Some((width, height)) => {
            let w = text::to_chars(&width);
            let h = text::to_chars(&height);
            assert(w@.skip(0) =~= w@);
            assert(h@.skip(0) =~= h@);
            w.len() > 0 && h.len() > 0 && text::digits_from(&w, 0) && text::digits_from(&h, 0)
        },
        None => false,
    }
}

/// The modifiers in front of a key, and the key itself.
pub struct KeyParts {
    /// Whether the control key is held.
    pub ctrl: bool,
    /// Whether the meta key is held.
    pub meta: bool,
    /// Whether the shift key is held.
    pub shift: bool,
    /// The key itself.
    pub rest: Seq<char>,
}

/// Takes the modifiers `C-`, `M-` and `S-` off a key, in any order and case.
pub open spec fn key_parts(s: Seq<char>) -> KeyParts
    decreases s.len(),
{
    let plain = KeyParts { ctrl: false, meta: false, shift: false, rest: s };
    match text::split_first(s, "-"@) {
        None => plain,
        Some((prefix, tail)) => {
            proof {
                reveal_strlit("-");
                text::lemma_find_bounds(s, "-"@);
            }
            let word = text::lowercase(prefix);
            if word == "c"@ {
                KeyParts { ctrl: true, ..key_parts(tail) }
            } else if word == "m"@ {
                KeyParts { meta: true, ..key_parts(tail) }
            } else if word == "s"@ {
                KeyParts { shift: true, ..key_parts(tail) }
            } else {
                plain
            }
        },
    }
}

/// The normal spelling of a key that has a name.
pub open spec fn named_key(word: Seq<char>) -> Option<Seq<char>> {
    if word == "none"@ {
        Some("None"@)
    } else if word == "bspace"@ {
        Some("BSpace"@)
    } else if word == "enter"@ {
        Some("Enter"@)
    } else if word == "space"@ {
        Some("Space"@)
    } else if word == "tab"@ {
        Some("Tab"@)
    } else if word == "up"@ {
        Some("Up"@)
    } else if word == "down"@ {
        Some("Down"@)
    } else if word == "left"@ {
        Some("Left"@)
    } else if word == "right"@ {
        Some("Right"@)
    } else if word == "home"@ {
        Some("Home"@)
    } else if word == "end"@ {
        Some("End"@)
    } else if word == "escape"@ || word == "esc"@ {
        Some("Escape"@)
    } else {
        None
    }
}

/// Computes [`named_key`].
fn named_key_of(word: &str) -> (r: Option<String>)
    ensures
        r.deep_view() == named_key(word@),
{
    if text::str_eq(word, "none") {
        Some("None".to_owned())
    } else if text::str_eq(word, "bspace") {
        Some("BSpace".to_owned())
    } else if text::str_eq(word, "enter") {
        Some("Enter".to_owned())
    } else if text::str_eq(word, "space") {
        Some("Space".to_owned())
    } else if text::str_eq(word, "tab") {
        Some("Tab".to_owned())
    } else if text::str_eq(word, "up") {
        Some("Up".to_owned())
    } else if text::str_eq(word, "down") {
        Some("Down".to_owned())
    } else if text::str_eq(word, "left") {
        Some("Left".to_owned())
    } else if text::str_eq(word, "right") {
        Some("Right".to_owned())
    } else if text::str_eq(word, "home") {
        Some("Home".to_owned())
    } else if text::str_eq(word, "end") {
        Some("End".to_owned())
    } else if text::str_eq(word, "escape") || text::str_eq(word, "esc") {
        Some("Escape".to_owned())
    } else {
        None
    }
}

/// The normal spelling of a key without its modifiers: a name, a function key
/// or a single character, which is a small letter where control is held.
pub open spec fn key_tail(rest: Seq<char>, ctrl: bool) -> Option<Seq<char>> {
    match named_key(text::lowercase(rest)) {
        Some(name) => Some(name),
        None => if rest.len() > 0 && (rest[0] == 'F' || rest[0] == 'f') && text::all_digits(
            rest.skip(1),
        ) {
            Some(seq!['F'] + rest.skip(1))
        } else if rest.len() == 1 {
            Some(
                seq![
                    if ctrl && text::is_letter(rest[0]) {
                        text::lower(rest[0])
                    } else {
                        rest[0]
                    },
                ],
            )
        } else {
            None
        },
    }
}

/// The spelling of modifiers in their normal order.
pub open spec fn modifier_text(parts: KeyParts) -> Seq<char> {
    let c = if parts.ctrl {
        "C-"@
    } else {
        seq![]
    };
    let m = if parts.meta {
        "M-"@
    } else {
        seq![]
    };
    let s = if parts.shift {
        "S-"@
    } else {
        seq![]
    };
    c + m + s
}

/// The normal spelling of a key, where the text is one.
pub open spec fn normal_key(value: Seq<char>) -> Option<Seq<char>> {
    let parts = key_parts(text::trimmed(value));
    if parts.rest.len() == 0 {
        None
    } else {
        match key_tail(parts.rest, parts.ctrl) {
            Some(tail) => Some(modifier_text(parts) + tail),
            None => None,
        }
    }
}

/// Computes [`key_tail`].
fn key_tail_of(rest: &str, ctrl: bool) -> (r: Option<String>)
    requires
        rest@.len() > 0,
    ensures
        r.deep_view() == key_tail(rest@, ctrl),
{
    let word = text::to_lower(rest);
    if let Some(name) = named_key_of(&word) {
        return Some(name);
    }
    let chars = text::to_chars(rest);
    let first = chars[0];
    if (first == 'F' || first == 'f') && text::digits_from(&chars, 1) {
        let mut out = String::new();
        out.push('F');
        let number = text::from_range(&chars, 1, chars.len());
        out.append(&number);
        assert(out@ =~= seq!['F'] + rest@.skip(1));
        return Some(out);
    }
    if chars.len() == 1 {
        let mut out = String::new();
        if ctrl && text::letter(first) {
            out.push(text::lower_char(first));
        } else {
            out.push(first);
        }
        assert(out@ =~= key_tail(rest@, ctrl)->Some_0);
        return Some(out);
    }
    None
}

/// Reads a key and spells it in its normal form; see [`normal_key`].
pub fn normalize_key(value: &str) -> (r: Option<String>)
    ensures
        r.deep_view() == normal_key(value@),
{
    let mut rest = text::trim(value);
    let ghost whole = key_parts(rest@);
    let mut ctrl = false;
    let mut meta = false;
    let mut shift = false;
    let mut more = true;
    while more
        invariant
            whole == key_parts(text::trimmed(value@)),
            ({
                let tail = key_parts(rest@);
                &&& whole.ctrl == (ctrl || tail.ctrl)
                &&& whole.meta == (meta || tail.meta)
                &&& whole.shift == (shift || tail.shift)
                &&& whole.rest == tail.rest
            }),
            !more ==> key_parts(rest@) == (KeyParts {
                ctrl: false,
                meta: false,
                shift: false,
                rest: rest@,
            }),
        decreases rest@.len(), more as int,
    {
        match text::split_once(&rest, "-") {
            Some((prefix, tail)) => {
                proof {
                    reveal_strlit("-");
                    text::lemma_find_bounds(rest@, "-"@);
                }
                let word = text::to_lower(&prefix);
                if text::str_eq(&word, "c") {
                    ctrl = true;
                    rest = tail;
                } else if text::str_eq(&word, "m") {
                    meta = true;
                    rest = tail;
                } else if text::str_eq(&word, "s") {
                    shift = true;
                    rest = tail;
                } else {
                    more = false;
                }
            },
            None => {
                more = false;
            },
        }
    }
    if rest.as_str().is_empty() {
        return None;
    }
    let tail = match key_tail_of(&rest, ctrl) {
        Some(tail) => tail,
        None => {
            return None;
        },
    };
    let mut normalized = String::new();
    if ctrl {
        normalized.append("C-");
    }
    if meta {
        normalized.append("M-");
    }
    if shift {
        normalized.append("S-");
    }
    assert(normalized@ =~= modifier_text(whole));
    normalized.append(&tail);
    Some(normalized)
}

/// Where a text holds no `-`, it carries no modifiers.
proof fn lemma_no_dash(s: Seq<char>)
    requires
        forall|i: int| 0 <= i < s.len() ==> s[i] != '-',
    ensures
        text::find(s, "-"@) is None,
    decreases s.len(),
{
    reveal_strlit("-");
    if text::has_prefix(s, "-"@) {
        assert(s.take(1)[0] == '-');
    }
    if s.len() > 0 {
        lemma_no_dash(s.skip(1));
    }
}

/// One letter and a dash in front of a key are split off as one.
proof fn lemma_one_modifier(letter: char, rest: Seq<char>)
    requires
        letter != '-',
    ensures
        text::split_first(seq![letter, '-'] + rest, "-"@) == Some((seq![letter], rest)),
{
    reveal_strlit("-");
    let s = seq![letter, '-'] + rest;
    if text::has_prefix(s, "-"@) {
        assert(s.take(1)[0] == '-');
    }
    assert(s.skip(1).take(1) =~= "-"@);
    assert(text::find(s.skip(1), "-"@) == Some(0int));
    assert(text::find(s, "-"@) == Some(1int));
    assert(s.take(1) =~= seq![letter]);
    assert(s.skip(2) =~= rest);
}

/// What is left of a key without its modifiers ends it.
proof fn lemma_rest_ends(s: Seq<char>)
    ensures
        key_parts(s).rest.len() > 0 ==> s.len() > 0 && key_parts(s).rest.last() == s.last(),
    decreases s.len(),
{
    if let Some((prefix, tail)) = text::split_first(s, "-"@) {
        reveal_strlit("-");
        text::lemma_find_bounds(s, "-"@);
        lemma_rest_ends(tail);
    }
}

/// Modifiers in their normal order are read back.
proof fn lemma_modifiers_read_back(parts: KeyParts, tail: Seq<char>)
    requires
        key_parts(tail) == (KeyParts { ctrl: false, meta: false, shift: false, rest: tail }),
    ensures
        key_parts(modifier_text(parts) + tail) == (KeyParts { rest: tail, ..parts }),
{
    reveal_strlit("C-");
    reveal_strlit("M-");
    reveal_strlit("S-");
    reveal_strlit("c");
    reveal_strlit("m");
    reveal_strlit("s");
    assert(text::lowercase(seq!['C']) =~= "c"@);
    assert(text::lowercase(seq!['M']) =~= "m"@);
    assert(text::lowercase(seq!['S']) =~= "s"@);
    assert("m"@[0] != "c"@[0]);
    assert("s"@[0] != "c"@[0]);
    assert("s"@[0] != "m"@[0]);
    let after_s = if parts.shift {
        seq!['S', '-'] + tail
    } else {
        tail
    };
    lemma_one_modifier('S', tail);
    assert(key_parts(after_s) == KeyParts {
        ctrl: false,
        meta: false,
        shift: parts.shift,
        rest: tail,
    });
    let after_m = if parts.meta {
        seq!['M', '-'] + after_s
    } else {
        after_s
    };
    lemma_one_modifier('M', after_s);
    assert(key_parts(after_m) == KeyParts {
        ctrl: false,
        meta: parts.meta,
        shift: parts.shift,
        rest: tail,
    });
    lemma_one_modifier('C', after_m);
    let whole = if parts.ctrl {
        seq!['C', '-'] + after_m
    } else {
        after_m
    };
    assert("C-"@ =~= seq!['C', '-']);
    assert("M-"@ =~= seq!['M', '-']);
    assert("S-"@ =~= seq!['S', '-']);
    assert(modifier_text(parts) + tail =~= whole);
}

/// The names of keys are their own normal spelling, carry no modifiers and
/// hold no white space at their ends.
proof fn lemma_names_are_normal(word: Seq<char>)
    requires
        named_key(word) is Some,
    ensures
        ({
            let name = named_key(word)->0;
            &&& named_key(text::lowercase(name)) == Some(name)
            &&& name.len() > 0
            &&& forall|i: int| 0 <= i < name.len() ==> name[i] != '-'
            &&& forall|i: int| 0 <= i < name.len() ==> text::is_letter(#[trigger] name[i])
        }),
{
    reveal_strlit("none");
    reveal_strlit("None");
    reveal_strlit("bspace");
    reveal_strlit("BSpace");
    reveal_strlit("enter");
    reveal_strlit("Enter");
    reveal_strlit("space");
    reveal_strlit("Space");
    reveal_strlit("tab");
    reveal_strlit("Tab");
    reveal_strlit("up");
    reveal_strlit("Up");
    reveal_strlit("down");
    reveal_strlit("Down");
    reveal_strlit("left");
    reveal_strlit("Left");
    reveal_strlit("right");
    reveal_strlit("Right");
    reveal_strlit("home");
    reveal_strlit("Home");
    reveal_strlit("end");
    reveal_strlit("End");
    reveal_strlit("escape");
    reveal_strlit("Escape");
    reveal_strlit("esc");
    assert(text::lowercase("None"@) =~= "none"@);
    assert(text::lowercase("BSpace"@) =~= "bspace"@);
    assert(text::lowercase("Enter"@) =~= "enter"@);
    assert(text::lowercase("Space"@) =~= "space"@);
    assert(text::lowercase("Tab"@) =~= "tab"@);
    assert(text::lowercase("Up"@) =~= "up"@);
    assert(text::lowercase("Down"@) =~= "down"@);
    assert(text::lowercase("Left"@) =~= "left"@);
    assert(text::lowercase("Right"@) =~= "right"@);
    assert(text::lowercase("Home"@) =~= "home"@);
    assert(text::lowercase("End"@) =~= "end"@);
    assert(text::lowercase("Escape"@) =~= "escape"@);
    assert("bspace"@.len() == 6 && "enter"@.len() == 5 && "none"@.len() == 4);
    assert("none"@[0] == 'n' && "down"@[0] == 'd' && "left"@[0] == 'l' && "home"@[0] == 'h');
    assert("enter"@[0] == 'e' && "space"@[0] == 's' && "right"@[0] == 'r');
    assert("tab"@[0] == 't' && "end"@[0] == 'e' && "end"@[1] == 'n' && "esc"@[1] == 's');
    assert("bspace"@[0] == 'b' && "escape"@[0] == 'e');
}

/// A text that begins with `f` or has one character is not the name of a key.
proof fn lemma_not_named(word: Seq<char>)
    requires
        word.len() == 1 || (word.len() > 0 && word[0] == 'f'),
    ensures
        named_key(word) is None,
{
    reveal_strlit("none");
    reveal_strlit("bspace");
    reveal_strlit("enter");
    reveal_strlit("space");
    reveal_strlit("tab");
    reveal_strlit("up");
    reveal_strlit("down");
    reveal_strlit("left");
    reveal_strlit("right");
    reveal_strlit("home");
    reveal_strlit("end");
    reveal_strlit("escape");
    reveal_strlit("esc");
}

/// Spelling a key in its normal form once more changes nothing.
pub proof fn law_normal_key_is_stable(value: Seq<char>)
    ensures
        normal_key(value) matches Some(key) ==> normal_key(key) == Some(key),
{
    if let Some(key) = normal_key(value) {
        reveal_strlit("-");
        reveal_strlit("C-");
        reveal_strlit("M-");
        reveal_strlit("S-");
        let whole = text::trimmed(value);
        let parts = key_parts(whole);
        let rest = parts.rest;
        let tail = key_tail(rest, parts.ctrl)->0;
        text::lemma_trimmed_ends(value);
        lemma_rest_ends(whole);
        if named_key(text::lowercase(rest)) is Some {
            lemma_names_are_normal(text::lowercase(rest));
            lemma_no_dash(tail);
            assert(text::is_letter(tail[0]) && text::is_letter(tail.last()));
            assert(key_tail(tail, parts.ctrl) == Some(tail));
        } else if (rest[0] == 'F' || rest[0] == 'f') && text::all_digits(rest.skip(1)) {
            assert(tail.skip(1) =~= rest.skip(1));
            assert forall|i: int| 0 <= i < tail.len() implies tail[i] != '-' by {
                if i > 0 {
                    assert(text::is_digit(rest.skip(1)[i - 1]));
                }
            }
            assert(tail.last() == 'F' || text::is_digit(tail.last())) by {
                if tail.len() > 1 {
                    assert(text::is_digit(rest.skip(1)[tail.len() - 2]));
                }
            }
            lemma_no_dash(tail);
            assert(text::lowercase(tail)[0] == 'f');
            lemma_not_named(text::lowercase(tail));
            assert(key_tail(tail, parts.ctrl) == Some(tail)) by {
                assert(seq!['F'] + tail.skip(1) =~= tail);
            }
        } else {
            assert(rest.len() == 1 && tail.len() == 1);
            assert(!text::is_white(rest[0]));
            assert(!text::is_white(tail[0]));
            if tail[0] != '-' {
                lemma_no_dash(tail);
            } else {
                assert(tail.take(1) =~= "-"@);
                assert(text::find(tail, "-"@) == Some(0int));
                reveal_strlit("c");
                reveal_strlit("m");
                reveal_strlit("s");
                assert(text::lowercase(tail.take(0)).len() == 0);
            }
            lemma_not_named(text::lowercase(tail));
            assert(rest[0] != 'f' && rest[0] != 'F') by {
                assert(rest.skip(1).len() == 0);
            }
            assert(key_tail(tail, parts.ctrl) == Some(tail)) by {
                assert(key_tail(tail, parts.ctrl)->0 =~= tail);
            }
        }
        assert(key_parts(tail) == KeyParts {
            ctrl: false,
            meta: false,
            shift: false,
            rest: tail,
        });
        lemma_modifiers_read_back(parts, tail);
        assert(key.last() == tail.last());
        assert(!text::is_white(key[0]));
        assert(!text::is_white(key.last()));
        assert(text::trimmed(key) == key);
        assert(modifier_text(KeyParts { rest: tail, ..parts }) == modifier_text(parts));
    }
}

/// Whether a word says that a flag is on.
pub open spec fn says_on(value: Seq<char>) -> bool {
    let word = text::lowercase(value);
    word == "on"@ || word == "1"@ || word == "yes"@
}

/// Computes [`says_on`].
fn matches_flag_true(value: &str) -> (r: bool)
    ensures
        r == says_on(value@),
{
    let word = text::to_lower(value);
    text::str_eq(&word, "on") || text::str_eq(&word, "1") || text::str_eq(&word, "yes")
}

/// Whether a word says that a flag is off.
pub open spec fn says_off(value: Seq<char>) -> bool {
    let word = text::lowercase(value);
    word == "off"@ || word == "0"@ || word == "no"@
}

/// Computes [`says_off`].
fn matches_flag_false(value: &str) -> (r: bool)
    ensures
        r == says_off(value@),
{
    let word = text::to_lower(value);
    text::str_eq(&word, "off") || text::str_eq(&word, "0") || text::str_eq(&word, "no")
}

impl OptionQuery {
    /// The text that a new one makes: it follows the present one, where there is
    /// one to add to.
    pub open spec fn next_text(self, raw: Seq<char>, current: Option<Seq<char>>) -> Seq<char> {
        match current {
            Some(current) => current + self.separator@ + raw,
            None => raw,
        }
    }

    /// Whether a text is to be a size and is none.
    pub open spec fn is_bad_size(self, next: Seq<char>) -> bool {
        self.canonical_name@ == "default-size"@ && !is_size(next)
    }

    /// Whether a text must be a style: not where it is a format.
    pub open spec fn must_be_style(self, next: Seq<char>) -> bool {
        self.effects.has(EFFECT_STYLE_PARSE) && !text::occurs(next, "#{"@)
    }

    /// What a grammar is asked about for a value of the option.
    pub open spec fn question(self, value: Option<Seq<char>>, current: Option<Seq<char>>) -> QuestionView {
        match value {
            None => QuestionView::Nothing,
            Some(raw) => match self.value_type {
                OptionValueType::String => {
                    let next = self.next_text(raw, current);
                    if !self.is_bad_size(next) && self.must_be_style(next) {
                        QuestionView::Style(next)
                    } else {
                        QuestionView::Nothing
                    }
                },
                OptionValueType::Colour => if text::trimmed(raw).len() > 0 {
                    QuestionView::Colour(text::trimmed(raw))
                } else {
                    QuestionView::Nothing
                },
                OptionValueType::Command => QuestionView::Commands(raw),
                _ => QuestionView::Nothing,
            },
        }
    }

    /// What is stored for a text: it follows the present one, where there is
    /// one to add to.
    pub open spec fn string_value(
        self,
        raw: Seq<char>,
        current: Option<Seq<char>>,
        reading: ReadingView,
    ) -> Result<ValueView, ErrorView> {
        let next = self.next_text(raw, current);
        if self.is_bad_size(next) {
            Err(refused("value is invalid: "@ + next))
        } else if self.must_be_style(next) && !reading.is_style {
            Err(refused("invalid style: "@ + next))
        } else {
            Ok(ValueView::String(next))
        }
    }

    /// What is stored for a flag: without a word, the present one is turned.
    pub open spec fn flag_value(self, value: Option<Seq<char>>, current: Option<Seq<char>>) -> Result<
        ValueView,
        ErrorView,
    > {
        let word = match value {
            Some(raw) => text::trimmed(raw),
            None => Seq::empty(),
        };
        if word.len() == 0 {
            Ok(ValueView::Flag(current != Some("on"@)))
        } else if says_on(word) {
            Ok(ValueView::Flag(true))
        } else if says_off(word) {
            Ok(ValueView::Flag(false))
        } else {
            Err(refused(self.canonical_name@ + " expects on or off"@))
        }
    }

    /// What is stored for a choice: without a word, the other of two, or the
    /// present one of more.
    pub open spec fn choice_value(
        self,
        choices: Seq<Seq<char>>,
        value: Option<Seq<char>>,
        current: Option<Seq<char>>,
    ) -> Result<ValueView, ErrorView> {
        let raw = match value {
            Some(raw) => raw,
            None => Seq::empty(),
        };
        if raw.len() == 0 {
            let present = match current {
                Some(current) => current,
                None => choices[0],
            };
            Ok(
                ValueView::Choice(
                    if choices.len() == 2 {
                        if present == choices[0] {
                            choices[1]
                        } else {
                            choices[0]
                        }
                    } else {
                        present
                    },
                ),
            )
        } else if choices.contains(raw) {
            Ok(ValueView::Choice(raw))
        } else {
            Err(
                refused(
                    self.canonical_name@ + " expects one of: "@ + text::joined(choices, ", "@),
                ),
            )
        }
    }

    /// What is stored for a value of the option, given what the grammars said.
    pub open spec fn scalar_value(
        self,
        value: Option<Seq<char>>,
        current: Option<Seq<char>>,
        reading: ReadingView,
    ) -> Result<ValueView, ErrorView> {
        match self.value_type {
            OptionValueType::Flag => self.flag_value(value, current),
            OptionValueType::Choice(choices) => self.choice_value(
                choices.deep_view(),
                value,
                current,
            ),
            _ => match value {
                None => Err(empty_value()),
                Some(raw) => match self.value_type {
                    OptionValueType::String => self.string_value(raw, current, reading),
                    OptionValueType::Number { minimum } => match text::parsed_u32(raw) {
                        Some(n) if n >= minimum => Ok(ValueView::Number(n)),
                        _ => Err(bad_number(self.canonical_name@, minimum)),
                    },
                    OptionValueType::Key => match normal_key(raw) {
                        Some(key) => Ok(ValueView::Key(key)),
                        None => Err(bad_kind(self.canonical_name@, "key code"@)),
                    },
                    OptionValueType::Colour => match reading.colour {
                        Some(colour) if text::trimmed(raw).len() > 0 => Ok(
                            ValueView::Colour(colour),
                        ),
                        _ => Err(bad_kind(self.canonical_name@, "colour value"@)),
                    },
                    _ => match reading.commands {
                        CommandsView::Commands(list) => Ok(ValueView::Command(list)),
                        CommandsView::Malformed(message) => Err(
                            refused(
                                self.canonical_name@ + " expects a command list: "@ + message,
                            ),
                        ),
                    },
                },
            },
        }
    }

    /// Whether a value can be stored at all: turning to the first of some
    /// words needs a word.
    pub open spec fn can_turn(self, value: Option<Seq<char>>) -> bool {
        match self.value_type {
            OptionValueType::Choice(choices) => choices@.len() > 0 || (value matches Some(raw)
                && raw.len() > 0),
            _ => true,
        }
    }
}

/// Copies a list of texts.
fn dup_texts(list: &Vec<String>) -> (r: Vec<String>)
    ensures
        r.deep_view() == list.deep_view(),
{
    let mut out: Vec<String> = Vec::new();
    let mut i: usize = 0;
    while i < list.len()
        invariant
            i <= list@.len(),
            out@ =~= list@.take(i as int),
        decreases list.len() - i,
    {
        out.push(list[i].clone());
        i = i + 1;
    }
    assert(out.deep_view() =~= list.deep_view());
    out
}

/// Whether a list holds a text.
fn texts_contain(list: &Vec<String>, word: &str) -> (r: bool)
    ensures
        r == list.deep_view().contains(word@),
{
    let mut i: usize = 0;
    while i < list.len()
        invariant
            i <= list@.len(),
            forall|j: int| 0 <= j < i ==> (#[trigger] list@[j])@ != word@,
        decreases list.len() - i,
    {
        if text::str_eq(&list[i], word) {
            assert(list.deep_view()[i as int] == word@);
            return true;
        }
        i = i + 1;
    }
    proof {
        if list.deep_view().contains(word@) {
            let j = choose|j: int| 0 <= j < list.deep_view().len() && list.deep_view()[j] == word@;
            assert(list@[j]@ == word@);
        }
    }
    false
}

/// Computes [`OptionQuery::next_text`].
fn next_text_of(query: &OptionQuery, raw: &str, current: Option<&str>) -> (r: String)
    ensures
        r@ == query.next_text(raw@, current.deep_view()),
{
    match current {
        Some(current) => {
            let mut joined = current.to_owned();
            joined.append(&query.separator);
            joined.append(raw);
            joined
        },
        None => raw.to_owned(),
    }
}

/// Computes [`OptionQuery::is_bad_size`].
fn is_bad_size(query: &OptionQuery, next: &str) -> (r: bool)
    ensures
        r == query.is_bad_size(next@),
{
    text::str_eq(&query.canonical_name, "default-size") && !matches_default_size_pattern(next)
}

/// Computes [`OptionQuery::must_be_style`].
fn must_be_style(query: &OptionQuery, next: &str) -> (r: bool)
    ensures
        r == query.must_be_style(next@),
{
    query.effects.contains(EFFECT_STYLE_PARSE) && !text::contains(next, "#{")
}

/// What a grammar is asked about for a value of an option; see
/// [`OptionQuery::question`].
pub fn scalar_question(query: &OptionQuery, value: Option<&str>, current: Option<&str>) -> (r:
    Question)
    ensures
        r@ == query.question(value.deep_view(), current.deep_view()),
{
    let raw = match value {
        Some(raw) => raw,
        None => {
            return Question::Nothing;
        },
    };
    match &query.value_type {
        OptionValueType::String => {
            let next = next_text_of(query, raw, current);
            if !is_bad_size(query, &next) && must_be_style(query, &next) {
                Question::Style(next)
            } else {
                Question::Nothing
            }
        },
        OptionValueType::Colour => {
            let name = text::trim(raw);
            if name.as_str().is_empty() {
                Question::Nothing
            } else {
                Question::Colour(name)
            }
        },
        OptionValueType::Command => Question::Commands(raw.to_owned()),
        _ => Question::Nothing,
    }
}

/// What is stored for a value rests on nothing but the value and what was asked
/// of a grammar.
pub proof fn law_readings_count_where_asked(
    query: OptionQuery,
    value: Option<Seq<char>>,
    current: Option<Seq<char>>,
    a: ReadingView,
    b: ReadingView,
)
    requires
        alike(query.question(value, current), a, b),
    ensures
        query.scalar_value(value, current, a) == query.scalar_value(value, current, b),
{
}

/// Stores a text; see [`OptionQuery::string_value`].
fn string_value_of(
    query: &OptionQuery,
    raw: &str,
    current: Option<&str>,
    reading: &Reading,
) -> (r: Result<StoredOptionValue, ProtoError>)
    ensures
        viewed(r) == query.string_value(raw@, current.deep_view(), reading@),
{
    let next = next_text_of(query, raw, current);
    if is_bad_size(query, &next) {
        let mut message = "value is invalid: ".to_owned();
        message.append(&next);
        return Err(ProtoError::InvalidSetOption(message));
    }
    if must_be_style(query, &next) && !reading.is_style {
        let mut message = "invalid style: ".to_owned();
        message.append(&next);
        return Err(ProtoError::InvalidSetOption(message));
    }
    Ok(StoredOptionValue::String(next))
}

/// Reads a flag; see [`OptionQuery::flag_value`].
fn flag_value_of(query: &OptionQuery, value: Option<&str>, current: Option<&str>) -> (r: Result<
    StoredOptionValue,
    ProtoError,
>)
    ensures
        viewed(r) == query.flag_value(value.deep_view(), current.deep_view()),
{
    let word = match value {
        Some(raw) => text::trim(raw),
        None => String::new(),
    };
    if word.as_str().is_empty() {
        let is_on = match current {
            Some(present) => text::str_eq(present, "on"),
            None => false,
        };
        return Ok(StoredOptionValue::Flag(!is_on));
    }
    if matches_flag_true(&word) {
        return Ok(StoredOptionValue::Flag(true));
    }
    if matches_flag_false(&word) {
        return Ok(StoredOptionValue::Flag(false));
    }
    let mut message = query.canonical_name.clone();
    message.append(" expects on or off");
    Err(ProtoError::InvalidSetOption(message))
}

/// Reads a choice; see [`OptionQuery::choice_value`].
fn choice_value_of(
    query: &OptionQuery,
    choices: &Vec<String>,
    value: Option<&str>,
    current: Option<&str>,
) -> (r: Result<StoredOptionValue, ProtoError>)
    requires
        choices@.len() > 0 || (value matches Some(raw) && raw@.len() > 0),
    ensures
        viewed(r) == query.choice_value(
            choices.deep_view(),
            value.deep_view(),
            current.deep_view(),
        ),
{
    let raw = match value {
        Some(raw) => raw.to_owned(),
        None => String::new(),
    };
    if raw.as_str().is_empty() {
        let present = match current {
            Some(present) => present.to_owned(),
            None => choices[0].clone(),
        };
        let next = if choices.len() == 2 {
            if text::str_eq(&present, &choices[0]) {
                choices[1].clone()
            } else {
                choices[0].clone()
            }
        } else {
            present
        };
        return Ok(StoredOptionValue::Choice(next));
    }
    if texts_contain(choices, &raw) {
        return Ok(StoredOptionValue::Choice(raw));
    }
    let mut message = query.canonical_name.clone();
    message.append(" expects one of: ");
    let list = text::join(choices, ", ");
    message.append(&list);
    Err(ProtoError::InvalidSetOption(message))
}

/// Reads a value into the form in which it is stored, given what the grammars
/// said of its [`scalar_question`]; see [`OptionQuery::scalar_value`].
pub fn normalize_scalar_value(
    query: &OptionQuery,
    value: Option<&str>,
    current: Option<&str>,
    reading: &Reading,
) -> (r: Result<StoredOptionValue, ProtoError>)
    requires
        query.can_turn(value.deep_view()),
    ensures
        viewed(r) == query.scalar_value(value.deep_view(), current.deep_view(), reading@),
{
    match &query.value_type {
        OptionValueType::Flag => {
            return flag_value_of(query, value, current);
        },
        OptionValueType::Choice(choices) => {
            return choice_value_of(query, choices, value, current);
        },
        _ => {},
    }
    let raw = match value {
        Some(raw) => raw,
        None => {
            return Err(empty_value_error());
        },
    };
    match &query.value_type {
        OptionValueType::String => string_value_of(query, raw, current, reading),
        OptionValueType::Number { minimum } => match text::parse_u32(raw) {
            Some(parsed) => if parsed < *minimum {
                Err(invalid_number(&query.canonical_name, *minimum))
            } else {
                Ok(StoredOptionValue::Number(parsed))
            },
            None => Err(invalid_number(&query.canonical_name, *minimum)),
        },
        OptionValueType::Key => match normalize_key(raw) {
            Some(key) => Ok(StoredOptionValue::Key(key)),
            None => Err(invalid_integer(&query.canonical_name, "key code")),
        },
        OptionValueType::Colour => match normalize_colour(raw, reading) {
            Some(colour) => Ok(StoredOptionValue::Colour(colour)),
            None => Err(invalid_integer(&query.canonical_name, "colour value")),
        },
        _ => match &reading.commands {
            CommandReading::Commands(list) => Ok(StoredOptionValue::Command(dup_texts(list))),
            CommandReading::Malformed(why) => {
                let mut message = query.canonical_name.clone();
                message.append(" expects a command list: ");
                message.append(why);
                Err(ProtoError::InvalidSetOption(message))
            },
        },
    }
}

/// The normal spelling of a colour, where the text is one. Without a text, there
/// is none.
fn normalize_colour(value: &str, reading: &Reading) -> (r: Option<String>)
    ensures
        r.deep_view() == if text::trimmed(value@).len() > 0 {
            reading@.colour
        } else {
            None
        },
{
    let trimmed = text::trim(value);
    if trimmed.as_str().is_empty() {
        return None;
    }
    match &reading.colour {
        Some(name) => Some(name.clone()),
        None => None,
    }
}

/// The scopes of a mask in words.
pub open spec fn scope_names(mask: u8) -> Seq<Seq<char>> {
    let server = if mask & SCOPE_SERVER != 0 {
        seq!["global"@]
    } else {
        seq![]
    };
    let session = if mask & SCOPE_SESSION != 0 {
        seq!["session"@]
    } else {
        seq![]
    };
    let window = if mask & SCOPE_WINDOW != 0 {
        seq!["window"@]
    } else {
        seq![]
    };
    let pane = if mask & SCOPE_PANE != 0 {
        seq!["pane"@]
    } else {
        seq![]
    };
    server + session + window + pane
}

/// The scopes of a mask in one line.
fn allowed_scope_message(mask: u8) -> (r: String)
    ensures
        r@ == text::joined(scope_names(mask), " or "@),
{
    let mut scopes: Vec<String> = Vec::new();
    if mask & SCOPE_SERVER != 0 {
        scopes.push("global".to_owned());
    }
    if mask & SCOPE_SESSION != 0 {
        scopes.push("session".to_owned());
    }
    if mask & SCOPE_WINDOW != 0 {
        scopes.push("window".to_owned());
    }
    if mask & SCOPE_PANE != 0 {
        scopes.push("pane".to_owned());
    }
    assert(scopes.deep_view() =~= scope_names(mask));
    text::join(&scopes, " or ")
}

impl OptionQuery {
    /// Why a change to the option is not acceptable.
    pub open spec fn refusal(
        self,
        scope: OptionScopeSelector,
        mode: SetOptionMode,
        value: Option<Seq<char>>,
        unset: bool,
        reading: ReadingView,
    ) -> Option<ErrorView> {
        let mask = match self.known {
            Some(known) => known.1,
            None => 0,
        };
        if self.known is Some && mask & scope_bit(scope) == 0 {
            Some(
                refused(
                    self.canonical_name@ + " is only supported at "@ + text::joined(
                        scope_names(mask),
                        " or "@,
                    ) + " scope"@,
                ),
            )
        } else if mode == SetOptionMode::Append && !self.is_array && !(self.value_type is String) {
            Some(refused(self.canonical_name@ + " is not an array option"@))
        } else if unset || self.is_array || self.value_type is Flag || self.value_type is Choice {
            None
        } else {
            match self.scalar_value(value, None, reading) {
                Ok(_) => None,
                Err(error) => Some(error),
            }
        }
    }
}

/// A value that is acceptable for an option that holds one value can be stored,
/// in place of what was there.
pub proof fn law_accepted_values_can_be_stored(
    query: OptionQuery,
    scope: OptionScopeSelector,
    mode: SetOptionMode,
    value: Option<Seq<char>>,
    reading: ReadingView,
)
    requires
        query.refusal(scope, mode, value, false, reading) is None,
        !query.is_array,
        !(query.value_type is Flag),
        !(query.value_type is Choice),
    ensures
        query.scalar_value(value, None, reading) is Ok,
{
}

/// Whether a change to an option is acceptable; see [`OptionQuery::refusal`].
pub fn validate_query_mutation(
    query: &OptionQuery,
    scope: &OptionScopeSelector,
    mode: SetOptionMode,
    value: Option<&str>,
    unset: bool,
    reading: &Reading,
) -> (r: Result<(), ProtoError>)
    ensures
        match query.refusal(*scope, mode, value.deep_view(), unset, reading@) {
            Some(error) => r is Err && r->Err_0@ == error,
            None => r is Ok,
        },
{
    if let Some((_, mask)) = query.known {
        let bit: u8 = scope_bit_of(scope);
        if mask & bit == 0 {
            let mut message = query.canonical_name.clone();
            message.append(" is only supported at ");
            let scopes = allowed_scope_message(mask);
            message.append(&scopes);
            message.append(" scope");
            return Err(ProtoError::InvalidSetOption(message));
        }
    }
    let is_text = matches!(query.value_type, OptionValueType::String);
    if mode == SetOptionMode::Append && !query.is_array && !is_text {
        let mut message = query.canonical_name.clone();
        message.append(" is not an array option");
        return Err(ProtoError::InvalidSetOption(message));
    }
    if unset || query.is_array {
        return Ok(());
    }
    match &query.value_type {
        OptionValueType::Flag | OptionValueType::Choice(_) => Ok(()),
        _ => match normalize_scalar_value(query, value, None, reading) {
            Ok(_) => Ok(()),
            Err(error) => Err(error),
        },
    }
}

/// Computes [`scope_bit`].
fn scope_bit_of(scope: &OptionScopeSelector) -> (r: u8)
    ensures
        r == scope_bit(*scope),
{
    match scope {
        OptionScopeSelector::ServerGlobal => SCOPE_SERVER,
        OptionScopeSelector::SessionGlobal | OptionScopeSelector::Session(_) => SCOPE_SESSION,
        OptionScopeSelector::WindowGlobal | OptionScopeSelector::Window(_) => SCOPE_WINDOW,
        OptionScopeSelector::Pane(_) => SCOPE_PANE,
    }
}

/// The scope that a selector without told-apart roots means for an option.
pub open spec fn rooted_scope(root: GlobalRoot, scope: ScopeSelector) -> OptionScopeSelector {
    match scope {
        ScopeSelector::Global => match root {
            GlobalRoot::Server => OptionScopeSelector::ServerGlobal,
            GlobalRoot::Session => OptionScopeSelector::SessionGlobal,
            GlobalRoot::Window => OptionScopeSelector::WindowGlobal,
        },
        ScopeSelector::Session(name) => OptionScopeSelector::Session(name),
        ScopeSelector::Window(target) => OptionScopeSelector::Window(target),
        ScopeSelector::Pane(target) => OptionScopeSelector::Pane(target),
    }
}

/// Computes [`rooted_scope`] for an option.
pub fn legacy_scope_for_option(option: &OptionMetadata, scope: &ScopeSelector) -> (r:
    OptionScopeSelector)
    ensures
        r == rooted_scope(option.global_root, *scope),
{
    match scope {
        ScopeSelector::Global => match option.global_root {
            GlobalRoot::Server => OptionScopeSelector::ServerGlobal,
            GlobalRoot::Session => OptionScopeSelector::SessionGlobal,
            GlobalRoot::Window => OptionScopeSelector::WindowGlobal,
        },
        ScopeSelector::Session(name) => OptionScopeSelector::Session(name.clone()),
        ScopeSelector::Window(target) => OptionScopeSelector::Window(target.clone()),
        ScopeSelector::Pane(target) => OptionScopeSelector::Pane(target.clone()),
    }
}

/// Whether a scope is one of the global ones.
pub fn is_global_scope(scope: &OptionScopeSelector) -> (r: bool)
    ensures
        r == (scope is ServerGlobal || scope is SessionGlobal || scope is WindowGlobal),
{
    matches!(
        scope,
        OptionScopeSelector::ServerGlobal
            | OptionScopeSelector::SessionGlobal
            | OptionScopeSelector::WindowGlobal
    )
}

impl OptionMetadata {
    /// The query that asks for this option, all of it.
    pub open spec fn query(self) -> OptionQuery {
        OptionQuery {
            canonical_name: self.name,
            known: Some((self.id, self.scope_mask)),
            value_type: self.value_type,
            is_array: self.is_array,
            index: None,
            separator: self.separator,
            effects: self.effects,
        }
    }

    /// Whether a query asks for this option, all of it.
    pub open spec fn asked_by(self, query: OptionQuery) -> bool {
        &&& query.canonical_name@ == self.name@
        &&& query.known == Some((self.id, self.scope_mask))
        &&& same_type(query.value_type, self.value_type)
        &&& query.is_array == self.is_array
        &&& query.index is None
        &&& query.separator@ == self.separator@
        &&& query.effects == self.effects
    }
}

/// Whether two value types mean the same.
pub open spec fn same_type(a: OptionValueType, b: OptionValueType) -> bool {
    match (a, b) {
        (OptionValueType::Choice(x), OptionValueType::Choice(y)) => x.deep_view() == y.deep_view(),
        _ => a == b,
    }
}

impl OptionQuery {
    /// The query for a known option.
    pub fn known(option: &OptionMetadata) -> (r: OptionQuery)
        ensures
            option.asked_by(r),
    {
        let value_type = match &option.value_type {
            OptionValueType::String => OptionValueType::String,
            OptionValueType::Number { minimum } => OptionValueType::Number { minimum: *minimum },
            OptionValueType::Key => OptionValueType::Key,
            OptionValueType::Colour => OptionValueType::Colour,
            OptionValueType::Flag => OptionValueType::Flag,
            OptionValueType::Choice(choices) => OptionValueType::Choice(dup_texts(choices)),
            OptionValueType::Command => OptionValueType::Command,
        };
        OptionQuery {
            canonical_name: option.name.clone(),
            known: Some((option.id, option.scope_mask)),
            value_type,
            is_array: option.is_array,
            index: None,
            separator: option.separator.clone(),
            effects: option.effects,
        }
    }
}

/// Whether a change to a known option is acceptable.
pub fn validate_option_mutation(
    option: &OptionMetadata,
    scope: &ScopeSelector,
    mode: SetOptionMode,
    value: &str,
    reading: &Reading,
) -> (r: Result<(), ProtoError>)
    ensures
        match option.query().refusal(
            rooted_scope(option.global_root, *scope),
            mode,
            Some(value@),
            false,
            reading@,
        ) {
            Some(error) => r is Err && r->Err_0@ == error,
            None => r is Ok,
        },
{
    let query = OptionQuery::known(option);
    let explicit_scope = legacy_scope_for_option(option, scope);
    validate_query_mutation(&query, &explicit_scope, mode, Some(value), false, reading)
}

/// Whether a change to an option that was looked up by name is acceptable. A
/// name that was not found, and a change that is not acceptable, are errors.
pub fn validate_option_name_mutation(
    resolved: Result<OptionQuery, ProtoError>,
    scope: &OptionScopeSelector,
    mode: SetOptionMode,
    value: Option<&str>,
    unset: bool,
    reading: &Reading,
) -> (r: Result<OptionQuery, ProtoError>)
    ensures
        match resolved {
            Err(error) => r == Err::<OptionQuery, ProtoError>(error),
            Ok(query) => match query.refusal(*scope, mode, value.deep_view(), unset, reading@) {
                Some(error) => r is Err && r->Err_0@ == error,
                None => r == Ok::<OptionQuery, ProtoError>(query),
            },
        },
{
    match resolved {
        Err(error) => Err(error),
        Ok(query) => match validate_query_mutation(&query, scope, mode, value, unset, reading) {
            Ok(()) => Ok(query),
            Err(error) => Err(error),
        },
    }
}

/// An option value of a list.
#[derive(Debug, PartialEq, Eq)]
pub struct ArrayItem {
    /// The value.
    pub value: StoredOptionValue,
}

impl View for ArrayItem {
    type V = ValueView;

    open spec fn view(&self) -> ValueView {
        self.value@
    }
}

impl ArrayItem {
    /// The item with a value.
    pub fn new(value: StoredOptionValue) -> (r: ArrayItem)
        ensures
            r@ == value@,
    {
        ArrayItem { value }
    }
}

/// The values of an option that holds a list, by place.
#[derive(Debug)]
pub struct OptionEntry {
    /// The values.
    pub items: Table<u32, ArrayItem>,
}

impl View for OptionEntry {
    type V = Map<u32, ValueView>;

    open spec fn view(&self) -> Map<u32, ValueView> {
        self.items@
    }
}

/// Whether `n` is the place after the last one that is taken. After the last
/// place of all, it is that place again.
pub open spec fn is_next_place(places: Set<u32>, n: u32) -> bool {
    if exists|k: u32| places.contains(k) {
        exists|k: u32|
            #![trigger places.contains(k)]
            {
                &&& places.contains(k)
                &&& forall|other: u32| #[trigger] places.contains(other) ==> other <= k
                &&& n == if k == u32::MAX {
                    k as int
                } else {
                    k + 1
                }
            }
    } else {
        n == 0
    }
}

/// The place after the last one that is taken.
pub open spec fn next_place(places: Set<u32>) -> u32 {
    choose|n: u32| is_next_place(places, n)
}

/// The texts of a list that is written in one line.
pub open spec fn assigned(value: Seq<char>, separator: Seq<char>) -> Seq<Seq<char>> {
    if separator.len() == 0 {
        seq![value]
    } else {
        let sep = if text::occurs(separator, ","@) {
            ","@
        } else {
            separator
        };
        text::split(value, sep).map_values(|s: Seq<char>| text::trimmed(s)).filter(nonempty())
    }
}

/// Whether a text has characters.
pub open spec fn nonempty() -> spec_fn(Seq<char>) -> bool {
    |s: Seq<char>| s.len() > 0
}

/// Computes [`assigned`].
pub fn split_array_assignment(value: &str, separator: &str) -> (r: Vec<String>)
    ensures
        r.deep_view() == assigned(value@, separator@),
{
    let mut out: Vec<String> = Vec::new();
    if separator.is_empty() {
        out.push(value.to_owned());
        assert(out.deep_view() =~= seq![value@]);
        return out;
    }
    proof {
        reveal_strlit(",");
    }
    let comma = text::contains(separator, ",");
    let pieces = if comma {
        text::split_on(value, ",")
    } else {
        text::split_on(value, separator)
    };
    let ghost all = pieces.deep_view().map_values(|s: Seq<char>| text::trimmed(s));
    proof {
        reveal(Seq::filter);
    }
    assert(out.deep_view() =~= all.take(0).filter(nonempty()));
    let mut i: usize = 0;
    while i < pieces.len()
        invariant
            i <= pieces@.len(),
            all == pieces.deep_view().map_values(|s: Seq<char>| text::trimmed(s)),
            out.deep_view() == all.take(i as int).filter(nonempty()),
        decreases pieces.len() - i,
    {
        let piece = text::trim(&pieces[i]);
        proof {
            reveal(Seq::filter);
            assert(all.take(i + 1).drop_last() =~= all.take(i as int));
            assert(all.take(i + 1).last() == piece@);
        }
        let ghost before = out.deep_view();
        if !piece.as_str().is_empty() {
            out.push(piece);
            assert(out.deep_view() =~= before.push(piece@));
        }
        i = i + 1;
    }
    assert(all.take(i as int) =~= all);
    out
}

impl OptionQuery {
    /// What is stored for one value of a list. A text for a place that was
    /// asked for is added to the present one without a separator.
    pub open spec fn item_value(
        self,
        value: Seq<char>,
        current: Option<Seq<char>>,
        reading: ReadingView,
    ) -> Result<ValueView, ErrorView> {
        self.scalar_value(Some(self.whole_item(value, current)), None, reading)
    }

    /// The text of one value of a list, with what it is added to.
    pub open spec fn whole_item(self, value: Seq<char>, current: Option<Seq<char>>) -> Seq<char> {
        if current is Some && self.index is Some && self.value_type is String {
            current->0 + value
        } else {
            value
        }
    }

    /// What a grammar is asked about for one value of a list.
    pub open spec fn item_question(self, value: Seq<char>, current: Option<Seq<char>>) -> QuestionView {
        self.question(Some(self.whole_item(value, current)), None)
    }

    /// The values that a change to a list is made of.
    pub open spec fn array_texts(self, value: Seq<char>) -> Seq<Seq<char>> {
        if self.index is Some {
            seq![value]
        } else {
            assigned(value, self.separator@)
        }
    }

    /// What the value at a place is added to.
    pub open spec fn present(self, mode: SetOptionMode, current: Option<Seq<char>>) -> Option<
        Seq<char>,
    > {
        if self.index is Some && mode == SetOptionMode::Append {
            current
        } else {
            None
        }
    }

    /// Whether values can be read one after the other up to the first that is
    /// not acceptable: turning to the first of some words needs a word.
    pub open spec fn can_take(self, values: Seq<Seq<char>>) -> bool {
        values.len() > 0 ==> self.can_turn(Some(values[0]))
    }

    /// Adding values at the end of a list one after the other, up to the first
    /// that is not acceptable: the list that comes out, and the error.
    pub open spec fn extended(
        self,
        items: Map<u32, ValueView>,
        values: Seq<Seq<char>>,
        readings: Seq<ReadingView>,
    ) -> (Map<u32, ValueView>, Option<ErrorView>)
        decreases values.len(),
    {
        if values.len() == 0 {
            (items, None)
        } else {
            let (before, error) = self.extended(items, values.drop_last(), readings);
            if error is Some {
                (before, error)
            } else {
                match self.item_value(values.last(), None, readings[values.len() - 1]) {
                    Ok(item) => (before.insert(next_place(before.dom()), item), None),
                    Err(error) => (before, Some(error)),
                }
            }
        }
    }

    /// A change to a list: the list that comes out, and the error.
    pub open spec fn array_change(
        self,
        items: Map<u32, ValueView>,
        value: Seq<char>,
        mode: SetOptionMode,
        current: Option<Seq<char>>,
        readings: Seq<ReadingView>,
    ) -> (Map<u32, ValueView>, Option<ErrorView>) {
        match self.index {
            Some(index) => {
                match self.item_value(value, self.present(mode, current), readings[0]) {
                    Ok(item) => (items.insert(index, item), None),
                    Err(error) => (items, Some(error)),
                }
            },
            None => {
                let start = if mode == SetOptionMode::Replace {
                    Map::empty()
                } else {
                    items
                };
                self.extended(start, assigned(value, self.separator@), readings)
            },
        }
    }
}

/// Where one value of a list was acceptable, any other can be read.
proof fn lemma_one_taken(query: OptionQuery, value: Seq<char>, reading: ReadingView, other: Seq<char>)
    requires
        query.can_turn(Some(value)),
        query.item_value(value, None, reading) is Ok,
    ensures
        query.can_turn(Some(other)),
{
    if let OptionValueType::Choice(choices) = query.value_type {
        if value.len() > 0 {
            assert(choices.deep_view().contains(value));
        }
    }
}

/// Computes [`OptionQuery::whole_item`].
fn whole_item_of(query: &OptionQuery, value: &str, current: Option<&str>) -> (r: String)
    ensures
        r@ == query.whole_item(value@, current.deep_view()),
{
    let is_text = matches!(query.value_type, OptionValueType::String);
    match current {
        Some(present) => if query.index.is_some() && is_text {
            let mut joined = present.to_owned();
            joined.append(value);
            joined
        } else {
            value.to_owned()
        },
        None => value.to_owned(),
    }
}

/// Reads one value of a list; see [`OptionQuery::item_value`].
fn array_item_from_value(
    query: &OptionQuery,
    value: &str,
    current: Option<&str>,
    reading: &Reading,
) -> (r: Result<ArrayItem, ProtoError>)
    requires
        query.can_turn(Some(value@)),
    ensures
        viewed(r) == query.item_value(value@, current.deep_view(), reading@),
{
    let whole = whole_item_of(query, value, current);
    match normalize_scalar_value(query, Some(whole.as_str()), None, reading) {
        Ok(stored) => Ok(ArrayItem::new(stored)),
        Err(error) => Err(error),
    }
}

/// What grammars are asked about for each of some values of a list.
fn questions_about(query: &OptionQuery, values: &Vec<String>) -> (r: Vec<Question>)
    ensures
        r.deep_view() == values.deep_view().map_values(
            |text: Seq<char>| query.item_question(text, None),
        ),
{
    let ghost asked = values.deep_view().map_values(
        |text: Seq<char>| query.item_question(text, None),
    );
    let mut out: Vec<Question> = Vec::new();
    let mut i: usize = 0;
    assert(out.deep_view() =~= asked.take(0));
    while i < values.len()
        invariant
            i <= values@.len(),
            asked == values.deep_view().map_values(
                |text: Seq<char>| query.item_question(text, None),
            ),
            out.deep_view() == asked.take(i as int),
        decreases values.len() - i,
    {
        let ghost before = out.deep_view();
        let question = scalar_question(query, Some(values[i].as_str()), None);
        proof {
            assert(values.deep_view()[i as int] == values@[i as int]@);
            assert(asked[i as int] == question@);
        }
        out.push(question);
        assert(out.deep_view() =~= before.push(question@));
        assert(out.deep_view() =~= asked.take(i + 1));
        i = i + 1;
    }
    assert(asked.take(i as int) =~= asked);
    out
}

/// What grammars are asked about for a change to a list, value by value.
pub fn array_questions(
    query: &OptionQuery,
    value: &str,
    mode: SetOptionMode,
    current: Option<&str>,
) -> (r: Vec<Question>)
    ensures
        r.deep_view() == query.array_texts(value@).map_values(
            |text: Seq<char>|
                query.item_question(text, query.present(mode, current.deep_view())),
        ),
{
    let ghost asked = query.array_texts(value@).map_values(
        |text: Seq<char>| query.item_question(text, query.present(mode, current.deep_view())),
    );
    if query.index.is_some() {
        let present = if mode == SetOptionMode::Append {
            current
        } else {
            None
        };
        let whole = whole_item_of(query, value, present);
        let mut out: Vec<Question> = Vec::new();
        out.push(scalar_question(query, Some(whole.as_str()), None));
        assert(out.deep_view() =~= asked);
        return out;
    }
    let out = questions_about(query, &split_array_assignment(value, &query.separator));
    assert(out.deep_view() =~= asked);
    out
}

/// An addition that failed among the first values is what comes out of all.
proof fn lemma_extended_stops(
    query: OptionQuery,
    items: Map<u32, ValueView>,
    values: Seq<Seq<char>>,
    readings: Seq<ReadingView>,
    upto: int,
)
    requires
        0 <= upto <= values.len(),
        query.extended(items, values.take(upto), readings).1 is Some,
    ensures
        query.extended(items, values, readings) == query.extended(items, values.take(upto), readings),
    decreases values.len() - upto,
{
    if upto < values.len() {
        assert(values.take(upto + 1).drop_last() =~= values.take(upto));
        lemma_extended_stops(query, items, values, readings, upto + 1);
    } else {
        assert(values.take(upto) =~= values);
    }
}

impl OptionEntry {
    /// The entry without values.
    pub fn new() -> (r: OptionEntry)
        ensures
            r@ == Map::<u32, ValueView>::empty(),
    {
        OptionEntry { items: Table::new() }
    }

    /// Takes all values out.
    pub fn clear_array(&mut self)
        ensures
            final(self)@ == Map::<u32, ValueView>::empty(),
    {
        self.items = Table::new();
    }

    /// Sets the value at a place.
    pub fn set_array_item(&mut self, index: u32, item: ArrayItem)
        ensures
            final(self)@ == old(self)@.insert(index, item@),
    {
        self.items.insert(index, item);
    }

    /// The place after the last one that is taken.
    pub fn next_array_index(&self) -> (r: u32)
        ensures
            r == next_place(self@.dom()),
            is_next_place(self@.dom(), r),
    {
        let keys = self.items.keys();
        let mut last: Option<u32> = None;
        let mut i: usize = 0;
        while i < keys.len()
            invariant
                i <= keys@.len(),
                i == 0 <==> last is None,
                last matches Some(k) ==> keys@.contains(k),
                forall|j: int| 0 <= j < i ==> last is Some && #[trigger] keys@[j] <= last->0,
            decreases keys.len() - i,
        {
            let k = keys[i];
            assert(keys@.contains(k));
            last = match last {
                Some(top) => if k > top {
                    Some(k)
                } else {
                    Some(top)
                },
                None => Some(k),
            };
            i = i + 1;
        }
        let r: u32 = match last {
            Some(top) => top.saturating_add(1),
            None => 0,
        };
        proof {
            let places = self@.dom();
            assert forall|k: u32| #[trigger] places.contains(k) implies last is Some && k
                <= last->0 by {
                assert(self.items@.contains_key(k));
                let j = choose|j: int| 0 <= j < keys@.len() && (#[trigger] keys@[j])@ == k;
                assert(keys@[j] <= last->0);
            }
            if last is Some {
                let j = choose|j: int| 0 <= j < keys@.len() && keys@[j] == last->0;
                assert(self.items@.contains_key(keys@[j]@));
                assert(places.contains(last->0));
            }
            assert(is_next_place(places, r));
            let n = next_place(places);
            assert(is_next_place(places, n));
            assert(n == r);
        }
        r
    }
}

/// Changes the values of an option that holds a list. Without a place, the
/// values are added at the end, after the present ones have gone where they are
/// replaced; when one is not acceptable, those before it stay added. `readings`
/// is what the grammars said of the [`array_questions`].
pub fn apply_array_mutation(
    entry: &mut OptionEntry,
    query: &OptionQuery,
    value: &str,
    mode: SetOptionMode,
    current: Option<&str>,
    readings: &Vec<Reading>,
) -> (r: Result<(), ProtoError>)
    requires
        query.can_take(query.array_texts(value@)),
        readings@.len() == query.array_texts(value@).len(),
    ensures
        ({
            let (after, error) = query.array_change(
                old(entry)@,
                value@,
                mode,
                current.deep_view(),
                readings.deep_view(),
            );
            &&& final(entry)@ == after
            &&& match r {
                Ok(_) => error is None,
                Err(e) => error == Some(e@),
            }
        }),
{
    if let Some(index) = query.index {
        let present = if mode == SetOptionMode::Append {
            current
        } else {
            None
        };
        assert(readings.deep_view()[0] == readings@[0]@);
        match array_item_from_value(query, value, present, &readings[0]) {
            Ok(item) => {
                entry.set_array_item(index, item);
                return Ok(());
            },
            Err(error) => {
                return Err(error);
            },
        }
    }
    let values = split_array_assignment(value, &query.separator);
    if mode == SetOptionMode::Replace {
        entry.clear_array();
    }
    let ghost start = entry@;
    let ghost all = values.deep_view();
    let mut i: usize = 0;
    assert(all.take(0).len() == 0);
    while i < values.len()
        invariant
            i <= values@.len(),
            query.index is None,
            readings@.len() == all.len(),
            forall|k: int| i <= k < all.len() && (i > 0 || k == 0) ==> query.can_turn(
                Some(#[trigger] all[k]),
            ),
            all == values.deep_view(),
            all == assigned(value@, query.separator@),
            start == if mode == SetOptionMode::Replace {
                Map::empty()
            } else {
                old(entry)@
            },
            query.extended(start, all.take(i as int), readings.deep_view()) == (entry@, None::<ErrorView>),
        decreases values.len() - i,
    {
        let next_index = entry.next_array_index();
        proof {
            assert(all.take(i + 1).drop_last() =~= all.take(i as int));
            assert(all.take(i + 1).last() == values@[i as int]@);
            assert(all[i as int] == values@[i as int]@);
            assert(readings.deep_view()[i as int] == readings@[i as int]@);
        }
        match array_item_from_value(query, &values[i], None, &readings[i]) {
            Ok(item) => {
                proof {
                    assert forall|k: int| i < k < all.len() implies query.can_turn(
                        Some(#[trigger] all[k]),
                    ) by {
                        lemma_one_taken(*query, all[i as int], readings@[i as int]@, all[k]);
                    }
                }
                entry.set_array_item(next_index, item);
            },
            Err(error) => {
                proof {
                    lemma_extended_stops(*query, start, all, readings.deep_view(), i + 1);
                }
                return Err(error);
            },
        }
        i = i + 1;
    }
    assert(all.take(i as int) =~= all);
    Ok(())
}

/// The value that an option has when nobody set it.
#[derive(Debug, PartialEq, Eq)]
pub enum DefaultValue {
    /// One text.
    Scalar(String),
    /// A list of texts.
    Array(Vec<String>),
}

impl DefaultValue {
    /// The texts of the default as a list.
    pub open spec fn texts(self, separator: Seq<char>) -> Seq<Seq<char>> {
        match self {
            DefaultValue::Scalar(value) => assigned(value@, separator),
            DefaultValue::Array(values) => values.deep_view(),
        }
    }
}

impl OptionQuery {
    /// The values of a list in their places, or the first error.
    pub open spec fn placed(self, values: Seq<Seq<char>>, readings: Seq<ReadingView>) -> Result<
        Map<u32, ValueView>,
        ErrorView,
    >
        decreases values.len(),
    {
        if values.len() == 0 {
            Ok(Map::empty())
        } else {
            match self.placed(values.drop_last(), readings) {
                Err(error) => Err(error),
                Ok(items) => match self.item_value(values.last(), None, readings[values.len() - 1]) {
                    Ok(item) => Ok(items.insert((values.len() - 1) as u32, item)),
                    Err(error) => Err(error),
                },
            }
        }
    }
}

/// An error among the first values is the error of all.
proof fn lemma_placed_stops(
    query: OptionQuery,
    values: Seq<Seq<char>>,
    readings: Seq<ReadingView>,
    upto: int,
)
    requires
        0 <= upto <= values.len(),
        query.placed(values.take(upto), readings) is Err,
    ensures
        query.placed(values, readings) == query.placed(values.take(upto), readings),
    decreases values.len() - upto,
{
    if upto < values.len() {
        assert(values.take(upto + 1).drop_last() =~= values.take(upto));
        lemma_placed_stops(query, values, readings, upto + 1);
    } else {
        assert(values.take(upto) =~= values);
    }
}

/// The texts of a default as a list; see [`DefaultValue::texts`].
fn texts_of(query: &OptionQuery, default: &DefaultValue) -> (r: Vec<String>)
    ensures
        r.deep_view() == default.texts(query.separator@),
{
    match default {
        DefaultValue::Scalar(value) => split_array_assignment(value, &query.separator),
        DefaultValue::Array(values) => dup_texts(values),
    }
}

/// What grammars are asked about for the default of an option that holds a list,
/// value by value.
pub fn default_questions(query: &OptionQuery, default: &DefaultValue) -> (r: Vec<Question>)
    ensures
        r.deep_view() == default.texts(query.separator@).map_values(
            |text: Seq<char>| query.item_question(text, None),
        ),
{
    questions_about(query, &texts_of(query, default))
}

/// The values that an option holding a list has when nobody set it, given what
/// the grammars said of the [`default_questions`].
pub fn default_array_items(
    query: &OptionQuery,
    default: &DefaultValue,
    readings: &Vec<Reading>,
) -> (r: Result<Table<u32, ArrayItem>, ProtoError>)
    requires
        query.can_take(default.texts(query.separator@)),
        readings@.len() == default.texts(query.separator@).len(),
    ensures
        viewed(r) == query.placed(default.texts(query.separator@), readings.deep_view()),
{
    let values = texts_of(query, default);
    let ghost all = values.deep_view();
    let mut items: Table<u32, ArrayItem> = Table::new();
    let mut i: usize = 0;
    assert(all.take(0).len() == 0);
    while i < values.len()
        invariant
            i <= values@.len(),
            readings@.len() == all.len(),
            forall|k: int| i <= k < all.len() && (i > 0 || k == 0) ==> query.can_turn(
                Some(#[trigger] all[k]),
            ),
            all == values.deep_view(),
            all == default.texts(query.separator@),
            query.placed(all.take(i as int), readings.deep_view()) == Ok::<Map<u32, ValueView>, ErrorView>(
                items@,
            ),
        decreases values.len() - i,
    {
        proof {
            assert(all.take(i + 1).drop_last() =~= all.take(i as int));
            assert(all.take(i + 1).last() == values@[i as int]@);
            assert(all[i as int] == values@[i as int]@);
            assert(readings.deep_view()[i as int] == readings@[i as int]@);
        }
        match array_item_from_value(query, &values[i], None, &readings[i]) {
            Ok(item) => {
                proof {
                    assert forall|k: int| i < k < all.len() implies query.can_turn(
                        Some(#[trigger] all[k]),
                    ) by {
                        lemma_one_taken(*query, all[i as int], readings@[i as int]@, all[k]);
                    }
                }
                items.insert(#[verifier::truncate] (i as u32), item);
            },
            Err(error) => {
                proof {
                    lemma_placed_stops(*query, all, readings.deep_view(), i + 1);
                }
                return Err(error);
            },
        }
        i = i + 1;
    }
    assert(all.take(i as int) =~= all);
    Ok(items)
}

/// The text of a default that is not a list.
pub fn default_scalar_text(default: &DefaultValue) -> (r: String)
    ensures
        r@ == match default {
            DefaultValue::Scalar(value) => value@,
            DefaultValue::Array(_) => ""@,
        },
{
    match default {
        DefaultValue::Scalar(value) => value.clone(),
        DefaultValue::Array(_) => "".to_owned(),
    }
}

/// That an option changed.
#[derive(Debug, PartialEq, Eq)]
pub struct OptionNotification {
    /// The name of the option.
    pub name: String,
    /// Where it changed.
    pub scope: OptionScopeSelector,
    /// What the change sets off.
    pub effects: OptionEffects,
}

/// What came of a change to an option.
#[derive(Debug, PartialEq, Eq)]
pub struct OptionMutationOutcome {
    /// The name of the option.
    pub name: String,
    /// The number of the option, where it is a known one.
    pub known_option: Option<u32>,
    /// Who is to be told.
    pub notifications: Vec<OptionNotification>,
}

/// What comes of a change to an option: one notification, unless the change
/// sets nothing off.
pub fn build_mutation_outcome(query: &OptionQuery, scope: OptionScopeSelector) -> (r:
    OptionMutationOutcome)
    ensures
        r.name@ == query.canonical_name@,
        r.known_option == match query.known {
            Some(known) => Some(known.0),
            None => None,
        },
        if query.effects.bits == 0 {
            r.notifications@.len() == 0
        } else {
            &&& r.notifications@.len() == 1
            &&& r.notifications@[0].name@ == query.canonical_name@
            &&& r.notifications@[0].scope == scope
            &&& r.notifications@[0].effects == query.effects
        },
{
    let notification = OptionNotification {
        name: query.canonical_name.clone(),
        scope,
        effects: query.effects,
    };
    let mut notifications: Vec<OptionNotification> = Vec::new();
    if !notification.effects.is_empty() {
        notifications.push(notification);
    }
    OptionMutationOutcome {
        name: query.canonical_name.clone(),
        known_option: match query.known {
            Some((id, _)) => Some(id),
            None => None,
        },
        notifications,
    }
}

} // verus!

//! Options: what they accept, and what setting them does.
use rmux::names::{OptionScopeSelector, ProtoError, ScopeSelector, SessionName};
use rmux::options::{
    apply_array_mutation, array_questions, build_mutation_outcome, default_array_items,
    default_questions, default_scalar_text, is_global_scope, legacy_scope_for_option,
    normalize_key, normalize_scalar_value, scalar_question, split_array_assignment,
    validate_option_mutation, validate_option_name_mutation, CommandReading, DefaultValue,
    GlobalRoot, OptionEffects, OptionEntry, OptionMetadata, OptionQuery, OptionValueType,
    Question, Reading, SetOptionMode, StoredOptionValue, EFFECT_STYLE_PARSE, SCOPE_SERVER,
    SCOPE_SESSION, SCOPE_WINDOW,
};

fn silent() -> Reading {
    Reading {
        is_style: false,
        colour: None,
        commands: CommandReading::Malformed("not asked".to_owned()),
    }
}

/// Answers a question from a small grammar.
fn answer(question: Question) -> Reading {
    let mut reading = silent();
    match question {
        Question::Nothing => {}
        Question::Style(text) => reading.is_style = text == "fg=red",
        Question::Colour(text) => {
            reading.colour = if text == "RED" {
                Some("red".to_owned())
            } else {
                None
            }
        }
        Question::Commands(text) => {
            reading.commands = if text == "{" {
                CommandReading::Malformed("unclosed".to_owned())
            } else {
                CommandReading::Commands(text.split(" ; ").map(|word| word.to_owned()).collect())
            }
        }
    }
    reading
}

fn option(name: &str, value_type: OptionValueType, is_array: bool) -> OptionMetadata {
    OptionMetadata {
        id: 4,
        name: name.to_owned(),
        value_type,
        scope_mask: SCOPE_SERVER | SCOPE_SESSION,
        global_root: GlobalRoot::Session,
        is_array,
        separator: ",".to_owned(),
        effects: OptionEffects { bits: 0 },
    }
}

fn query(name: &str, value_type: OptionValueType) -> OptionQuery {
    OptionQuery {
        canonical_name: name.to_owned(),
        known: None,
        value_type,
        is_array: false,
        index: None,
        separator: ",".to_owned(),
        effects: OptionEffects { bits: 0 },
    }
}

fn invalid(text: &str) -> ProtoError {
    ProtoError::InvalidSetOption(text.to_owned())
}

fn normalize(
    query: &OptionQuery,
    value: Option<&str>,
    current: Option<&str>,
) -> Result<StoredOptionValue, ProtoError> {
    let reading = answer(scalar_question(query, value, current));
    normalize_scalar_value(query, value, current, &reading)
}

#[test]
fn texts_are_added_to_what_is_there() {
    let text = query("status-left", OptionValueType::String);
    assert_eq!(
        normalize(&text, Some("b"), Some("a")),
        Ok(StoredOptionValue::String("a,b".to_owned()))
    );
    assert_eq!(
        normalize(&text, Some("b"), None),
        Ok(StoredOptionValue::String("b".to_owned()))
    );
    assert_eq!(normalize(&text, None, None), Err(invalid("empty value")));
}

#[test]
fn a_default_size_has_two_numbers() {
    let size = query("default-size", OptionValueType::String);
    assert!(normalize(&size, Some("80x24"), None).is_ok());
    for bad in ["80", "x24", "80x", "80x2a", "80x24x1"] {
        assert_eq!(
            normalize(&size, Some(bad), None),
            Err(invalid(&format!("value is invalid: {bad}")))
        );
    }
}

#[test]
fn a_style_must_be_one_unless_it_is_a_format() {
    let mut style = query("status-style", OptionValueType::String);
    style.effects = OptionEffects {
        bits: EFFECT_STYLE_PARSE,
    };
    assert!(normalize(&style, Some("fg=red"), None).is_ok());
    assert!(normalize(&style, Some("#{x}"), None).is_ok());
    assert_eq!(
        normalize(&style, Some("fg=?"), None),
        Err(invalid("invalid style: fg=?"))
    );
}

#[test]
fn numbers_have_a_least_value() {
    let number = query("history-limit", OptionValueType::Number { minimum: 5 });
    assert_eq!(normalize(&number, Some("5"), None), Ok(StoredOptionValue::Number(5)));
    for bad in ["4", "-1", "x", "4294967296", ""] {
        assert_eq!(
            normalize(&number, Some(bad), None),
            Err(invalid("history-limit expects a number greater than or equal to 5"))
        );
    }
}

#[test]
fn keys_have_one_spelling() {
    assert_eq!(normalize_key(" c-A "), Some("C-a".to_owned()));
    assert_eq!(normalize_key("s-m-c-up"), Some("C-M-S-Up".to_owned()));
    assert_eq!(normalize_key("esc"), Some("Escape".to_owned()));
    assert_eq!(normalize_key("f12"), Some("F12".to_owned()));
    assert_eq!(normalize_key("M-X"), Some("M-X".to_owned()));
    assert_eq!(normalize_key("é"), Some("é".to_owned()));
    assert_eq!(normalize_key(""), None);
    assert_eq!(normalize_key("C-"), None);
    assert_eq!(normalize_key("nope"), None);
    let key = query("prefix", OptionValueType::Key);
    assert_eq!(
        normalize(&key, Some("nope"), None),
        Err(invalid("prefix expects a key code"))
    );
}

#[test]
fn a_normal_key_stays_as_it_is() {
    for raw in ["c-b", "m-s-f1", "Space", "C-Left", "x", "-"] {
        if let Some(normal) = normalize_key(raw) {
            assert_eq!(normalize_key(&normal), Some(normal.clone()));
        }
    }
}

#[test]
fn colours_are_known_by_name() {
    let colour = query("display-panes-colour", OptionValueType::Colour);
    assert_eq!(
        normalize(&colour, Some(" RED "), None),
        Ok(StoredOptionValue::Colour("red".to_owned()))
    );
    for bad in ["", "nope"] {
        assert_eq!(
            normalize(&colour, Some(bad), None),
            Err(invalid("display-panes-colour expects a colour value"))
        );
    }
}

#[test]
fn flags_toggle_or_are_set() {
    let flag = query("mouse", OptionValueType::Flag);
    assert_eq!(normalize(&flag, None, Some("on")), Ok(StoredOptionValue::Flag(false)));
    assert_eq!(normalize(&flag, Some("  "), Some("off")), Ok(StoredOptionValue::Flag(true)));
    assert_eq!(normalize(&flag, Some("YES"), None), Ok(StoredOptionValue::Flag(true)));
    assert_eq!(normalize(&flag, Some(" 0 "), None), Ok(StoredOptionValue::Flag(false)));
    assert_eq!(
        normalize(&flag, Some("maybe"), None),
        Err(invalid("mouse expects on or off"))
    );
}

#[test]
fn choices_are_listed() {
    let two = query(
        "mode-keys",
        OptionValueType::Choice(vec!["emacs".to_owned(), "vi".to_owned()]),
    );
    let choice = |text: &str| Ok(StoredOptionValue::Choice(text.to_owned()));
    assert_eq!(normalize(&two, None, Some("emacs")), choice("vi"));
    assert_eq!(normalize(&two, Some(""), Some("vi")), choice("emacs"));
    assert_eq!(normalize(&two, None, None), choice("vi"));
    assert_eq!(normalize(&two, Some("vi"), None), choice("vi"));
    assert_eq!(
        normalize(&two, Some("nano"), None),
        Err(invalid("mode-keys expects one of: emacs, vi"))
    );
    let three = query(
        "justify",
        OptionValueType::Choice(vec!["a".to_owned(), "b".to_owned(), "c".to_owned()]),
    );
    assert_eq!(normalize(&three, None, Some("b")), choice("b"));
    assert_eq!(normalize(&three, None, None), choice("a"));
}

#[test]
fn commands_must_parse() {
    let command = query("default-client-command", OptionValueType::Command);
    assert_eq!(
        normalize(&command, Some("new-window ; kill-pane"), None),
        Ok(StoredOptionValue::Command(vec![
            "new-window".to_owned(),
            "kill-pane".to_owned(),
        ]))
    );
    assert_eq!(
        normalize(&command, Some("{"), None),
        Err(invalid("default-client-command expects a command list: unclosed"))
    );
}

#[test]
fn an_option_keeps_to_its_scopes() {
    let words = silent();
    let mouse = option("mouse", OptionValueType::Flag, false);
    let window = ScopeSelector::Window(rmux::names::WindowTarget::with_window(
        SessionName::new("alpha"),
        0,
    ));
    assert_eq!(
        validate_option_mutation(&mouse, &window, SetOptionMode::Replace, "on", &words),
        Err(invalid("mouse is only supported at global or session scope"))
    );
    assert_eq!(
        validate_option_mutation(&mouse, &ScopeSelector::Global, SetOptionMode::Replace, "on", &words),
        Ok(())
    );
    assert_eq!(
        validate_option_mutation(&mouse, &ScopeSelector::Global, SetOptionMode::Append, "on", &words),
        Err(invalid("mouse is not an array option"))
    );
    assert_eq!(
        legacy_scope_for_option(&mouse, &ScopeSelector::Global),
        OptionScopeSelector::SessionGlobal
    );
    assert!(is_global_scope(&OptionScopeSelector::WindowGlobal));
    assert!(!is_global_scope(&OptionScopeSelector::Session(SessionName::new("alpha"))));
    assert_eq!(SCOPE_WINDOW & mouse.scope_mask, 0);
}

#[test]
fn a_name_that_is_not_known_is_refused() {
    let words = silent();
    let scope = OptionScopeSelector::ServerGlobal;
    assert_eq!(
        validate_option_name_mutation(
            Err(invalid("unknown option: x")),
            &scope,
            SetOptionMode::Replace,
            Some("1"),
            false,
            &words,
        ),
        Err(invalid("unknown option: x"))
    );
    let user = || query("@mine", OptionValueType::String);
    assert_eq!(
        validate_option_name_mutation(Ok(user()), &scope, SetOptionMode::Replace, None, false, &words),
        Err(invalid("empty value"))
    );
    assert_eq!(
        validate_option_name_mutation(Ok(user()), &scope, SetOptionMode::Replace, None, true, &words),
        Ok(user())
    );
}

#[test]
fn lists_are_split_at_their_separator() {
    assert_eq!(split_array_assignment(" a , ,b ", ","), vec!["a", "b"]);
    assert_eq!(split_array_assignment("a b,c", " ,"), vec!["a b", "c"]);
    assert_eq!(split_array_assignment("a;b", ";"), vec!["a", "b"]);
    assert_eq!(split_array_assignment("a,b", ""), vec!["a,b"]);
}

fn items(entry: &OptionEntry) -> Vec<(u32, String)> {
    let mut out: Vec<(u32, String)> = Vec::new();
    for index in entry.items.keys() {
        match entry.items.get(&index) {
            Some(item) => match &item.value {
                StoredOptionValue::String(text) => out.push((index, text.clone())),
                other => panic!("expected a text, got {other:?}"),
            },
            None => panic!("a key has an item"),
        }
    }
    out.sort();
    out
}

fn texts(list: &[(u32, &str)]) -> Vec<(u32, String)> {
    list.iter().map(|(index, text)| (*index, text.to_string())).collect()
}

#[test]
fn lists_are_replaced_and_added_to() {
    let mut list = query("update-environment", OptionValueType::String);
    list.is_array = true;
    let mut entry = OptionEntry::new();
    let set = |entry: &mut OptionEntry, list: &OptionQuery, value: &str, mode: SetOptionMode| {
        let readings = array_questions(list, value, mode, None).into_iter().map(answer).collect();
        apply_array_mutation(entry, list, value, mode, None, &readings).expect("acceptable")
    };
    set(&mut entry, &list, "a,b", SetOptionMode::Replace);
    assert_eq!(items(&entry), texts(&[(0, "a"), (1, "b")]));
    set(&mut entry, &list, "c", SetOptionMode::Append);
    assert_eq!(items(&entry), texts(&[(0, "a"), (1, "b"), (2, "c")]));
    list.index = Some(7);
    set(&mut entry, &list, "x,y", SetOptionMode::Replace);
    assert_eq!(items(&entry), texts(&[(0, "a"), (1, "b"), (2, "c"), (7, "x,y")]));
    apply_array_mutation(&mut entry, &list, "z", SetOptionMode::Append, Some("x,y"), &vec![silent()])
        .expect("acceptable");
    assert_eq!(items(&entry)[3], (7, "x,yz".to_owned()));
    list.index = None;
    set(&mut entry, &list, "d", SetOptionMode::Append);
    assert_eq!(items(&entry)[4], (8, "d".to_owned()));
    set(&mut entry, &list, "e", SetOptionMode::Replace);
    assert_eq!(items(&entry), texts(&[(0, "e")]));
}

#[test]
fn defaults_are_texts_or_lists() {
    let list = query("terminal-features", OptionValueType::String);
    let scalar = DefaultValue::Scalar("a,b".to_owned());
    let array = DefaultValue::Array(vec!["a,b".to_owned()]);
    let count = |default: &DefaultValue| {
        let readings = default_questions(&list, default).into_iter().map(answer).collect();
        default_array_items(&list, default, &readings).expect("acceptable").len()
    };
    assert_eq!(count(&scalar), 2);
    assert_eq!(count(&array), 1);
    assert_eq!(default_scalar_text(&scalar), "a,b");
    assert_eq!(default_scalar_text(&array), "");
}

#[test]
fn a_change_is_told_where_it_has_effects() {
    let mut loud = query("status", OptionValueType::Flag);
    loud.known = Some((9, SCOPE_SESSION));
    let quiet = build_mutation_outcome(&loud, OptionScopeSelector::SessionGlobal);
    assert_eq!(quiet.name, "status");
    assert_eq!(quiet.known_option, Some(9));
    assert!(quiet.notifications.is_empty());
    loud.effects = OptionEffects { bits: 2 };
    let told = build_mutation_outcome(&loud, OptionScopeSelector::SessionGlobal);
    assert_eq!(told.notifications.len(), 1);
    assert_eq!(told.notifications[0].scope, OptionScopeSelector::SessionGlobal);
}

#[test]
fn grammars_are_asked_only_where_they_decide() {
    let mut style = query("status-style", OptionValueType::String);
    style.effects = OptionEffects {
        bits: EFFECT_STYLE_PARSE,
    };
    assert_eq!(
        scalar_question(&style, Some("b"), Some("a")),
        Question::Style("a,b".to_owned())
    );
    assert_eq!(scalar_question(&style, Some("#{x}"), None), Question::Nothing);
    let colour = query("display-panes-colour", OptionValueType::Colour);
    assert_eq!(
        scalar_question(&colour, Some(" RED "), None),
        Question::Colour("RED".to_owned())
    );
    assert_eq!(scalar_question(&colour, Some("  "), None), Question::Nothing);
    let mut command = query("command-alias", OptionValueType::Command);
    assert_eq!(
        array_questions(&command, "a,b", SetOptionMode::Append, None),
        vec![Question::Commands("a".to_owned()), Question::Commands("b".to_owned())]
    );
    command.index = Some(3);
    assert_eq!(
        array_questions(&command, "a,b", SetOptionMode::Append, Some("x")),
        vec![Question::Commands("a,b".to_owned())]
    );
}

#[test]
fn a_choice_without_choices_refuses_every_word() {
    let mut bare = query("bare", OptionValueType::Choice(Vec::new()));
    assert_eq!(
        normalize(&bare, Some("x"), None),
        Err(invalid("bare expects one of: "))
    );
    bare.is_array = true;
    let mut entry = OptionEntry::new();
    assert_eq!(
        apply_array_mutation(
            &mut entry,
            &bare,
            "x,y",
            SetOptionMode::Append,
            None,
            &vec![silent(), silent()],
        ),
        Err(invalid("bare expects one of: "))
    );
    let default = DefaultValue::Array(vec!["x".to_owned(), String::new()]);
    assert_eq!(
        default_array_items(&bare, &default, &vec![silent(), silent()]).err(),
        Some(invalid("bare expects one of: "))
    );
}

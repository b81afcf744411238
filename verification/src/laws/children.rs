//! Laws of command lines, environments, paths and shells.
use vstd::prelude::*;

use crate::laws::texts::law_split_takes_pieces_off;
use crate::paths::{
    file_name_of, filled, has_drive, is_verbatim, last_component, last_piece, lone_name,
    path_joined, path_pieces, piece_end, pieces, prefix_len, walked_all, with_separators,
};
use crate::shell_resolver::{first_shell, line_shell, variable, ShellSources};
use crate::shell_resolver_windows::{
    directories, directories_from, endings, first_file, is_usable, named_shell, nonempty,
    places_in, variable_in_any_case, Environment,
};
use crate::spawn::{
    env_line, env_lines, in_order, is_special, line_of, needs_quotes, quoted, quoted_rest, settled,
    utf16, wide, ChildCommand,
};
use crate::text;

verus! {

/// A word stands between quotes where it must.
proof fn lemma_quoted_rest_plain(s: Seq<char>)
    requires
        !s.contains('\\'),
        !s.contains('"'),
    ensures
        quoted_rest(s, 0) == s.push('"'),
    decreases s.len(),
{
    if s.len() == 0 {
        assert(quoted_rest(s, 0) =~= s.push('"'));
    } else {
        assert(s.contains(s[0]));
        assert(!s.skip(1).contains('\\')) by {
            if s.skip(1).contains('\\') {
                let i = choose|i: int| 0 <= i < s.len() - 1 && s.skip(1)[i] == '\\';
                assert(s[i + 1] == '\\');
            }
        }
        assert(!s.skip(1).contains('"')) by {
            if s.skip(1).contains('"') {
                let i = choose|i: int| 0 <= i < s.len() - 1 && s.skip(1)[i] == '"';
                assert(s[i + 1] == '"');
            }
        }
        lemma_quoted_rest_plain(s.skip(1));
        assert(quoted_rest(s, 0) =~= s.push('"'));
    }
}

/// A word of a command line stands as it is, unless it is empty or has a space, a tab
/// or a quote in it: then it stands between quotes.
pub proof fn law_quotes(word: Seq<char>)
    ensures
        word.len() == 0 ==> quoted(word) == seq!['"', '"'],
        (word.len() > 0 && !word.contains(' ') && !word.contains('\t') && !word.contains('"'))
            ==> quoted(word) == word,
        ((word.contains(' ') || word.contains('\t')) && !word.contains('"') && !word.contains(
            '\\',
        )) ==> quoted(word) == seq!['"'] + word + seq!['"'],
        (word.contains(' ') || word.contains('\t') || word.contains('"')) ==> {
            &&& quoted(word).len() >= word.len() + 2
            &&& quoted(word)[0] == '"'
            &&& quoted(word).last() == '"'
        },
{
    if needs_quotes(word) {
        let i = choose|i: int| 0 <= i < word.len() && is_special(#[trigger] word[i]);
        assert(word.contains(word[i]));
        lemma_quoted_rest_ends(word, 0);
        if !word.contains('\\') && !word.contains('"') {
            lemma_quoted_rest_plain(word);
            assert(seq!['"'] + word.push('"') =~= seq!['"'] + word + seq!['"']);
        }
    } else {
        assert forall|c: char| #[trigger] word.contains(c) implies !is_special(c) by {
            let i = choose|i: int| 0 <= i < word.len() && word[i] == c;
            assert(!is_special(word[i]));
        }
        assert(!word.contains(' ') && !word.contains('\t') && !word.contains('"'));
    }
}

/// What stands between quotes ends with one, and loses no character.
proof fn lemma_quoted_rest_ends(s: Seq<char>, n: nat)
    ensures
        quoted_rest(s, n).len() >= s.len() + n + 1,
        quoted_rest(s, n).last() == '"',
    decreases s.len(),
{
    if s.len() > 0 {
        if s[0] == '\\' {
            lemma_quoted_rest_ends(s.skip(1), n + 1);
        } else {
            lemma_quoted_rest_ends(s.skip(1), 0);
        }
    }
}

/// Words stand on a command line with one space between them, in their order.
pub proof fn law_command_line(words: Seq<Seq<char>>, word: Seq<char>)
    ensures
        line_of(seq![word]) == quoted(word),
        words.len() > 0 ==> line_of(words.push(word)) == line_of(words) + seq![' '] + quoted(word),
{
    reveal_strlit(" ");
    assert(" "@ =~= seq![' ']);
    let quote = |word: Seq<char>| quoted(word);
    assert(seq![word].map_values(quote) =~= seq![quoted(word)]);
    assert(words.push(word).map_values(quote) =~= words.map_values(quote).push(quoted(word)));
    crate::laws::texts::law_joined(words.map_values(quote), " "@, quoted(word));
}

/// The words of a command are its name, which is that of the program where none is
/// given, and its arguments in their order.
pub proof fn law_command_words(command: ChildCommand, i: int)
    ensures
        command.words().len() == command.args@.len() + 1,
        command.arg0 matches Some(name) ==> command.words()[0] == name@,
        command.arg0 is None ==> command.words()[0] == command.program@,
        0 <= i < command.args@.len() ==> command.words()[i + 1] == command.args@[i]@,
{
}

/// A text in units of sixteen bits: one unit for a character below 65536, and for any
/// other two, from which its number can be told.
pub proof fn law_wide_texts(s: Seq<char>, c: char, t: Seq<char>)
    ensures
        wide(Seq::empty()).len() == 0,
        (c as int) < 0x10000 ==> utf16(c).len() == 1 && utf16(c)[0] as int == c as int,
        (c as int) >= 0x10000 ==> {
            &&& utf16(c).len() == 2
            &&& 0xd800 <= utf16(c)[0] < 0xdc00
            &&& 0xdc00 <= utf16(c)[1] < 0xe000
            &&& (utf16(c)[0] - 0xd800) * 0x400 + (utf16(c)[1] - 0xdc00) + 0x10000 == c as int
        },
        wide(s.push(c)) == wide(s) + utf16(c),
        wide(s + t) == wide(s) + wide(t),
    decreases t.len(),
{
    assert(s.push(c).drop_last() =~= s);
    let v = c as u32;
    assert(v as int == c as int);
    if t.len() == 0 {
        assert(s + t =~= s);
        assert(wide(s + t) =~= wide(s) + wide(t));
    } else {
        law_wide_texts(s, c, t.drop_last());
        assert((s + t).drop_last() =~= s + t.drop_last());
        assert(wide(s + t) =~= wide(s) + wide(t));
    }
}

/// Of several values for one variable the last counts; a variable that is set nowhere
/// keeps what it had.
pub proof fn law_last_value_counts(
    start: Map<Seq<char>, Seq<char>>,
    pairs: Seq<(String, String)>,
    name: Seq<char>,
    k: int,
)
    ensures
        (forall|i: int| 0 <= i < pairs.len() ==> (#[trigger] pairs[i]).0@ != name) ==> {
            &&& settled(start, pairs).contains_key(name) == start.contains_key(name)
            &&& start.contains_key(name) ==> settled(start, pairs)[name] == start[name]
        },
        (0 <= k < pairs.len() && pairs[k].0@ == name && forall|j: int|
            k < j < pairs.len() ==> (#[trigger] pairs[j]).0@ != name) ==> {
            &&& settled(start, pairs).contains_key(name)
            &&& settled(start, pairs)[name] == pairs[k].1@
        },
    decreases pairs.len(),
{
    if pairs.len() > 0 {
        let fewer = pairs.drop_last();
        law_last_value_counts(start, fewer, name, k);
        assert forall|i: int| 0 <= i < fewer.len() implies fewer[i] == pairs[i] by {}
        let last = pairs[pairs.len() - 1];
        assert(settled(start, pairs) == settled(start, fewer).insert(last.0@, last.1@));
        if 0 <= k < fewer.len() {
            assert(fewer[k] == pairs[k]);
        }
    }
}

/// A command with a clear environment has its own variables only; any other has those
/// it inherits too, where it does not set them itself.
pub proof fn law_environments(
    command: ChildCommand,
    inherited: Seq<(String, String)>,
    name: Seq<char>,
)
    requires
        forall|i: int| 0 <= i < command.env@.len() ==> (#[trigger] command.env@[i]).0@ != name,
    ensures
        command.clear_env ==> !command.environment(inherited).contains_key(name),
        !command.clear_env ==> {
            let all = settled(Map::empty(), inherited);
            &&& command.environment(inherited).contains_key(name) == all.contains_key(name)
            &&& all.contains_key(name) ==> command.environment(inherited)[name] == all[name]
        },
{
    law_last_value_counts(Map::empty(), command.env@, name, 0);
    law_last_value_counts(settled(Map::empty(), inherited), command.env@, name, 0);
}

/// A variable is written as its name, an equals sign and its value, and a zero ends
/// it; variables follow each other.
pub proof fn law_environment_lines(
    names: Seq<Seq<char>>,
    name: Seq<char>,
    env: Map<Seq<char>, Seq<char>>,
)
    ensures
        env_line(name, env[name]) == wide(name) + seq![61u16] + wide(env[name]) + seq![0u16],
        env_lines(Seq::empty(), env).len() == 0,
        env_lines(names.push(name), env) == env_lines(names, env) + env_line(name, env[name]),
{
    assert(env_line(name, env[name]) =~= wide(name) + seq![61u16] + wide(env[name]) + seq![0u16]);
    assert(names.push(name).drop_last() =~= names);
}

/// What stands behind the last separator of a path.
proof fn lemma_behind_last_separator(front: Seq<char>, name: Seq<char>)
    requires
        !name.contains('/'),
        !name.contains('\\'),
        front.len() == 0 || front.last() == '/' || front.last() == '\\',
    ensures
        last_piece(front + name) == name,
    decreases name.len(),
{
    let path = front + name;
    if name.len() == 0 {
        assert(path =~= front);
    } else {
        let less = name.drop_last();
        assert(name.contains(name.last()));
        assert(path.last() == name.last());
        assert(path.drop_last() =~= front + less);
        assert(!less.contains('/') && !less.contains('\\')) by {
            if less.contains('/') {
                let i = choose|i: int| 0 <= i < less.len() && less[i] == '/';
                assert(name[i] == '/');
            }
            if less.contains('\\') {
                let i = choose|i: int| 0 <= i < less.len() && less[i] == '\\';
                assert(name[i] == '\\');
            }
        }
        lemma_behind_last_separator(front, less);
        assert(less.push(name.last()) =~= name);
    }
}

/// The last component of a path is what stands behind its last separator, be it a
/// slash or a backslash; separators at the end do not count.
pub proof fn law_last_components(front: Seq<char>, name: Seq<char>, path: Seq<char>, sep: char)
    requires
        !name.contains('/'),
        !name.contains('\\'),
        front.len() == 0 || front.last() == '/' || front.last() == '\\',
        sep == '/' || sep == '\\',
    ensures
        (name.len() > 0 && name != seq!['.'] && name != seq!['.', '.']) ==> last_component(
            front + name,
        ) == Some(name),
        name == seq!['.', '.'] ==> last_component(front + name) is None,
        last_component(path.push(sep)) == last_component(path),
        last_component(Seq::empty()) is None,
{
    reveal_strlit(".");
    reveal_strlit("..");
    assert("."@ =~= seq!['.']);
    assert(".."@ =~= seq!['.', '.']);
    lemma_behind_last_separator(front, name);
    let none: Seq<char> = Seq::empty();
    assert(!none.contains('/') && !none.contains('\\'));
    lemma_behind_last_separator(path.push(sep), none);
    assert(path.push(sep) + none =~= path.push(sep));
    assert(path.push(sep).take(path.len() as int) =~= path);
    assert(none.len() != seq!['.', '.'].len());
    lemma_behind_last_separator(none, none);
    assert(none + none =~= none);
}

/// The pieces of a path stand between its separators.
pub proof fn law_pieces(path: Seq<char>, sep: char, name: Seq<char>)
    requires
        sep == '/' || sep == '\\',
        !name.contains('/'),
        !name.contains('\\'),
    ensures
        pieces(name, false) == seq![name],
        pieces(path.push(sep) + name, false) == pieces(path, false).push(name),
        pieces(path.push('\\') + name, true) == pieces(path, true).push(name),
    decreases name.len(),
{
    let none: Seq<char> = Seq::empty();
    if name.len() == 0 {
        assert(name =~= none);
        assert(pieces(name, false) =~= seq![name]);
        assert(path.push(sep) + name =~= path.push(sep));
        assert(path.push(sep).drop_last() =~= path);
        assert(path.push('\\') + name =~= path.push('\\'));
        assert(path.push('\\').drop_last() =~= path);
    } else {
        let less = name.drop_last();
        let c = name.last();
        assert(name.contains(c));
        assert(!less.contains('/') && !less.contains('\\')) by {
            if less.contains('/') {
                let i = choose|i: int| 0 <= i < less.len() && less[i] == '/';
                assert(name[i] == '/');
            }
            if less.contains('\\') {
                let i = choose|i: int| 0 <= i < less.len() && less[i] == '\\';
                assert(name[i] == '\\');
            }
        }
        law_pieces(path, sep, less);
        assert(less.push(c) =~= name);
        assert(pieces(name, false) =~= seq![name]);
        let whole = path.push(sep) + name;
        assert(whole.drop_last() =~= path.push(sep) + less);
        assert(whole.last() == c);
        assert(pieces(whole, false) =~= pieces(path, false).push(name));
        let deep = path.push('\\') + name;
        assert(deep.drop_last() =~= path.push('\\') + less);
        assert(deep.last() == c);
        assert(pieces(deep, true) =~= pieces(path, true).push(name));
    }
}

/// A name on its own is a path without separators and without a drive, that is not
/// dots.
pub proof fn law_lone_names(name: Seq<char>, front: Seq<char>, sep: char)
    requires
        !name.contains('/'),
        !name.contains('\\'),
        sep == '/' || sep == '\\',
    ensures
        (name.len() > 0 && !name.contains(':') && name != seq!['.'] && name != seq!['.', '.'])
            ==> lone_name(name) == Some(name),
        (name.len() > 0 && name != seq!['.']) ==> lone_name(front.push(sep) + name) is None,
        (name.len() >= 2 && name[1] == ':' && ('a' <= name[0] <= 'z' || 'A' <= name[0] <= 'Z'))
            ==> lone_name(name) is None,
{
    reveal_strlit(".");
    reveal_strlit("..");
    assert("."@ =~= seq!['.']);
    assert(".."@ =~= seq!['.', '.']);
    law_pieces(front, sep, name);
    let all = pieces(name, false);
    assert(all[0] == name);
    if name.len() >= 2 {
        assert(name[1] == ':' ==> name.contains(':'));
    }
    if name.len() > 0 && name != seq!['.'] {
        let whole = pieces(front.push(sep) + name, false);
        let k = whole.len() - 1;
        lemma_some_piece(front);
        assert(whole[k] == name);
        assert(!crate::paths::is_idle(whole[k]));
    }
}

/// There is always a piece.
proof fn lemma_some_piece(path: Seq<char>)
    ensures
        pieces(path, false).len() > 0,
    decreases path.len(),
{
    if path.len() > 0 {
        lemma_some_piece(path.drop_last());
    }
}

/// A relative path is joined to a directory with a backslash between them, unless
/// that ends with a separator or is a drive. A path with a drive of its own takes the
/// place of the directory.
pub proof fn law_joined_paths(directory: Seq<char>, path: Seq<char>)
    requires
        !is_verbatim(directory),
        path.len() > 0,
        path[0] != '/' && path[0] != '\\',
    ensures
        has_drive(path) ==> path_joined(directory, path) == path,
        (!has_drive(path) && directory.len() > 2 && directory.last() != '/' && directory.last()
            != '\\') ==> path_joined(directory, path) == directory + seq!['\\'] + path,
        (!has_drive(path) && directory.len() > 0 && (directory.last() == '/' || directory.last()
            == '\\')) ==> path_joined(directory, path) == directory + path,
        (!has_drive(path) && directory.len() == 2 && directory[1] == ':' && 'A' <= directory[0]
            <= 'Z') ==> path_joined(directory, path) == directory + path,
        has_drive(path) <==> path.len() >= 2 && path[1] == ':' && ('a' <= path[0] <= 'z' || 'A'
            <= path[0] <= 'Z'),
{
    assert(directory.push('\\') + path =~= directory + seq!['\\'] + path);
}

/// The value of a variable is that of its first entry.
pub proof fn law_first_entry_counts(environment: Seq<(String, String)>, name: Seq<char>, k: int)
    ensures
        (forall|i: int| 0 <= i < environment.len() ==> (#[trigger] environment[i]).0@ != name)
            ==> variable(environment, name) is None,
        (0 <= k < environment.len() && environment[k].0@ == name && forall|i: int|
            0 <= i < k ==> (#[trigger] environment[i]).0@ != name) ==> variable(environment, name)
            == Some(environment[k].1@),
    decreases environment.len(),
{
    if environment.len() > 0 {
        let rest = environment.skip(1);
        law_first_entry_counts(rest, name, k - 1);
        assert forall|i: int| 0 <= i < rest.len() implies rest[i] == environment[i + 1] by {}
        if forall|i: int| 0 <= i < environment.len() ==> (#[trigger] environment[i]).0@ != name {
            assert(environment[0].0@ != name);
        }
        if 0 < k < environment.len() && environment[k].0@ == name && forall|i: int|
            0 <= i < k ==> (#[trigger] environment[i]).0@ != name {
            assert(environment[0].0@ != name);
            assert(rest[k - 1].0@ == name);
        }
    }
}

/// Whether a field of a line has no colon.
pub open spec fn is_field(s: Seq<char>) -> bool {
    !s.contains(':')
}

/// The shell of an account stands in the seventh field of its line, and its number in
/// the third.
pub proof fn law_account_lines(
    a: Seq<char>,
    b: Seq<char>,
    c: Seq<char>,
    d: Seq<char>,
    e: Seq<char>,
    f: Seq<char>,
    g: Seq<char>,
    uid: u32,
)
    requires
        is_field(a) && is_field(b) && is_field(c) && is_field(d) && is_field(e) && is_field(f)
            && is_field(g),
    ensures
        ({
            let colon = seq![':'];
            let line = a + colon + (b + colon + (c + colon + (d + colon + (e + colon + (f + colon
                + g)))));
            &&& text::parsed_u32(c) == Some(uid) && g.len() > 0 ==> line_shell(line, uid) == Some(g)
            &&& text::parsed_u32(c) != Some(uid) || g.len() == 0 ==> line_shell(line, uid) is None
            &&& line_shell(a + colon + b, uid) is None
        }),
{
    reveal_strlit(":");
    assert(":"@ =~= seq![':']);
    let colon = seq![':'];
    let six = f + colon + g;
    let five = e + colon + six;
    let four = d + colon + five;
    let three = c + colon + four;
    let two = b + colon + three;
    law_split_takes_pieces_off(a, ':', two);
    law_split_takes_pieces_off(b, ':', three);
    law_split_takes_pieces_off(c, ':', four);
    law_split_takes_pieces_off(d, ':', five);
    law_split_takes_pieces_off(e, ':', six);
    law_split_takes_pieces_off(f, ':', g);
    law_split_takes_pieces_off(g, ':', g);
    law_split_takes_pieces_off(a, ':', b);
    let fields = text::split(a + colon + two, colon);
    assert(fields =~= seq![a, b, c, d, e, f, g]);
    assert(text::split(a + colon + b, colon) =~= seq![a, b]);
}

/// The first line that gives a shell counts.
pub proof fn law_first_account_counts(line: Seq<char>, rest: Seq<Seq<char>>, uid: u32)
    ensures
        first_shell(Seq::empty(), uid) is None,
        line_shell(line, uid) is Some ==> first_shell(seq![line] + rest, uid) == line_shell(
            line,
            uid,
        ),
        line_shell(line, uid) is None ==> first_shell(seq![line] + rest, uid) == first_shell(
            rest,
            uid,
        ),
{
    assert((seq![line] + rest)[0] == line);
    assert((seq![line] + rest).skip(1) =~= rest);
}

/// The shell is that of the option, of the session before that of all; or else that
/// of the variable, of the account, or the usual one. What is empty does not count.
pub proof fn law_shells(sources: ShellSources<'_>, uid: u32)
    ensures
        ({
            let option = match sources.session_option {
                Some(value) => value@,
                None => match sources.global_option {
                    Some(value) => value@,
                    None => Seq::empty(),
                },
            };
            let own = match variable(sources.environment@, "SHELL"@) {
                Some(value) => value,
                None => Seq::empty(),
            };
            let account = match sources.passwd {
                Some(table) => first_shell(text::lines(table@), uid),
                None => None,
            };
            &&& option.len() > 0 ==> sources.shell(uid) == option
            &&& option.len() == 0 && own.len() > 0 ==> sources.shell(uid) == own
            &&& option.len() == 0 && own.len() == 0 && account is Some ==> sources.shell(uid)
                == account->0
            &&& option.len() == 0 && own.len() == 0 && account is None ==> sources.shell(uid)
                == "/bin/sh"@
        }),
{
}

/// On Windows a variable is looked up as it is written, then in any letters, in the
/// session and then in the process.
pub proof fn law_windows_variables(environment: Environment, name: Seq<char>)
    ensures
        variable(environment.effective@, name) is Some ==> environment.value(name) == variable(
            environment.effective@,
            name,
        ),
        (variable(environment.effective@, name) is None && variable_in_any_case(
            environment.effective@,
            name,
        ) is Some) ==> environment.value(name) == variable_in_any_case(
            environment.effective@,
            name,
        ),
        (variable(environment.effective@, name) is None && variable_in_any_case(
            environment.effective@,
            name,
        ) is None) ==> environment.value(name) == variable_in_any_case(environment.process@, name),
{
}

/// In any letters the first entry counts too.
pub proof fn law_first_entry_counts_in_any_case(
    environment: Seq<(String, String)>,
    name: Seq<char>,
    other: Seq<char>,
    entry: (String, String),
)
    ensures
        variable_in_any_case(Seq::empty(), name) is None,
        text::lowercase(entry.0@) == text::lowercase(name) ==> variable_in_any_case(
            seq![entry] + environment,
            name,
        ) == Some(entry.1@),
        text::lowercase(entry.0@) != text::lowercase(name) ==> variable_in_any_case(
            seq![entry] + environment,
            name,
        ) == variable_in_any_case(environment, name),
        text::lowercase(name) == text::lowercase(other) ==> variable_in_any_case(environment, name)
            == variable_in_any_case(environment, other),
    decreases environment.len(),
{
    assert((seq![entry] + environment)[0] == entry);
    assert((seq![entry] + environment).skip(1) =~= environment);
    if environment.len() > 0 {
        law_first_entry_counts_in_any_case(environment.skip(1), name, other, entry);
    }
}

/// The shells of Windows, from its own directory: the one that is named for the
/// command prompt counts before the usual one.
pub proof fn law_windows_shells(environment: Environment, root: Seq<char>, files: Set<Seq<char>>)
    ensures
        environment.value("SystemRoot"@) == Some(root) ==> environment.powershell() == Some(
            path_joined(
                path_joined(
                    path_joined(
                        path_joined(root, "System32"@),
                        "WindowsPowerShell"@,
                    ),
                    "v1.0"@,
                ),
                "powershell.exe"@,
            ),
        ),
        environment.value("SystemRoot"@) is None ==> environment.powershell() is None,
        (environment.value("COMSPEC"@) matches Some(own) && own.len() > 0) ==> environment.cmd()
            == environment.value("COMSPEC"@),
        (!(environment.value("COMSPEC"@) matches Some(own) && own.len() > 0) && environment.value(
            "SystemRoot"@,
        ) == Some(root)) ==> environment.cmd() == Some(
            path_joined(path_joined(root, "System32"@), "cmd.exe"@),
        ),
        environment.searched("pwsh.exe"@, files) is Some ==> environment.default_shell(files)
            == environment.searched("pwsh.exe"@, files)->0,
        (environment.searched("pwsh.exe"@, files) is None && environment.powershell() is Some)
            ==> environment.default_shell(files) == environment.powershell()->0,
        (environment.searched("pwsh.exe"@, files) is None && environment.powershell() is None
            && environment.cmd() is Some) ==> environment.default_shell(files)
            == environment.cmd()->0,
        (environment.searched("pwsh.exe"@, files) is None && environment.powershell() is None
            && environment.cmd() is None) ==> environment.default_shell(files) == "cmd.exe"@,
{
}

/// A program that is named on its own is looked for: the two shells of Windows where
/// they are, and any other along the search path. Any other path stays as it is, and
/// so does a name that is found nowhere.
pub proof fn law_programs_are_looked_for(
    environment: Environment,
    path: Seq<char>,
    files: Set<Seq<char>>,
    name: Seq<char>,
)
    ensures
        lone_name(path) is None ==> environment.resolved(path, files) == path,
        (lone_name(path) is Some && crate::paths::file_name_of(path) == Some(name)) ==> {
            let low = text::lowercase(name);
            let found = if low == "cmd"@ || low == "cmd.exe"@ {
                environment.cmd()
            } else if low == "powershell"@ || low == "powershell.exe"@ {
                environment.powershell()
            } else {
                environment.searched(path, files)
            };
            &&& found matches Some(there) ==> environment.resolved(path, files) == there
            &&& found is None ==> environment.resolved(path, files) == path
        },
{
}

/// The endings that are tried: none for a name that has one, and else those that are
/// listed, or the three usual ones.
pub proof fn law_endings(path: Seq<char>, listed: Seq<char>)
    ensures
        crate::shell_resolver_windows::has_extension(path) ==> endings(path, Some(listed)) == seq![
            Seq::<char>::empty(),
        ] && endings(path, None) == seq![Seq::<char>::empty()],
        !crate::shell_resolver_windows::has_extension(path) ==> {
            &&& endings(path, None) == seq![".COM"@, ".EXE"@, ".BAT"@]
            &&& text::split(listed, ";"@).filter(nonempty()).len() == 0 ==> endings(
                path,
                Some(listed),
            ) == seq![".COM"@, ".EXE"@, ".BAT"@]
            &&& text::split(listed, ";"@).filter(nonempty()).len() > 0 ==> endings(
                path,
                Some(listed),
            ) == text::split(listed, ";"@).filter(nonempty())
        },
{
}

/// Characters without a meaning go into the present directory.
proof fn lemma_plain_directory(s: Seq<char>, rest: Seq<char>, in_quotes: bool, current: Seq<char>)
    requires
        !s.contains('"'),
        in_quotes || !s.contains(';'),
    ensures
        directories_from(s + rest, in_quotes, current) == directories_from(
            rest,
            in_quotes,
            current + s,
        ),
    decreases s.len(),
{
    let whole = s + rest;
    if s.len() == 0 {
        assert(whole =~= rest);
        assert(current + s =~= current);
    } else {
        let tail = s.skip(1);
        assert(s.contains(s[0]));
        assert(whole[0] == s[0]);
        assert(whole.skip(1) =~= tail + rest);
        assert(!tail.contains('"')) by {
            if tail.contains('"') {
                let i = choose|i: int| 0 <= i < tail.len() && tail[i] == '"';
                assert(s[i + 1] == '"');
            }
        }
        assert(in_quotes || !tail.contains(';')) by {
            if tail.contains(';') {
                let i = choose|i: int| 0 <= i < tail.len() && tail[i] == ';';
                assert(s[i + 1] == ';');
            }
        }
        lemma_plain_directory(tail, rest, in_quotes, current.push(s[0]));
        assert(current.push(s[0]) + tail =~= current + s);
    }
}

/// The directories of a search path stand between semicolons, other than those within
/// quotes, which belong to a directory and are taken off.
pub proof fn law_search_path(first: Seq<char>, rest: Seq<char>)
    requires
        !first.contains('"'),
    ensures
        !first.contains(';') ==> directories(first) == seq![first],
        !first.contains(';') ==> directories(first + seq![';'] + rest) == seq![first] + directories(
            rest,
        ),
        directories(seq!['"'] + first + seq!['"']) == seq![first],
        directories(seq!['"'] + first + seq!['"', ';'] + rest) == seq![first] + directories(rest),
{
    let none: Seq<char> = Seq::empty();
    assert(none + first =~= first);
    if !first.contains(';') {
        lemma_plain_directory(first, none, false, none);
        assert(first + none =~= first);
        let tail = seq![';'] + rest;
        lemma_plain_directory(first, tail, false, none);
        assert(first + seq![';'] + rest =~= first + tail);
        assert(tail.skip(1) =~= rest);
        assert(tail[0] == ';');
    }
    let close = seq!['"'];
    let one = seq!['"'] + first + close;
    assert(one.skip(1) =~= first + close);
    lemma_plain_directory(first, close, true, none);
    assert(close.skip(1) =~= none);
    assert(directories_from(none, false, first) =~= seq![first]);
    let more = seq!['"', ';'] + rest;
    let two = seq!['"'] + first + seq!['"', ';'] + rest;
    assert(two.skip(1) =~= first + more);
    lemma_plain_directory(first, more, true, none);
    let tail = seq![';'] + rest;
    assert(more.skip(1) =~= tail);
    assert(more[0] == '"');
    assert(tail.skip(1) =~= rest);
    assert(tail[0] == ';');
    assert(two[0] == '"');
    assert(directories(two) == directories_from(first + more, true, none));
    assert(directories_from(more, true, first) == directories_from(tail, false, first));
    assert(directories_from(tail, false, first) == seq![first] + directories_from(
        rest,
        false,
        none,
    ));
}

/// A program is tried in one directory after the other, in each with one ending after
/// the other.
pub proof fn law_places(
    before: Seq<Seq<char>>,
    directory: Seq<char>,
    path: Seq<char>,
    all: Seq<Seq<char>>,
    i: int,
)
    ensures
        ({
            let earlier = places_in(before, path, all);
            let now = places_in(before.push(directory), path, all);
            &&& now.len() == earlier.len() + all.len()
            &&& now.take(earlier.len() as int) == earlier
            &&& 0 <= i < all.len() ==> now[earlier.len() + i] == path_joined(
                directory,
                path + all[i],
            )
        }),
        places_in(Seq::empty(), path, all).len() == 0,
{
    assert(before.push(directory).drop_last() =~= before);
    let earlier = places_in(before, path, all);
    let now = places_in(before.push(directory), path, all);
    assert(now.take(earlier.len() as int) =~= earlier);
}

/// The first of the places that is a file, and no alias for one in a shop, is taken.
pub proof fn law_first_file(places: Seq<Seq<char>>, files: Set<Seq<char>>, k: int)
    ensures
        (0 <= k < places.len() && files.contains(places[k]) && is_usable(places[k]) && forall|
            i: int,
        |
            0 <= i < k ==> !(files.contains(#[trigger] places[i]) && is_usable(places[i])))
            ==> first_file(places, files) == Some(places[k]),
        (forall|i: int|
            0 <= i < places.len() ==> !(files.contains(#[trigger] places[i]) && is_usable(
                places[i],
            ))) ==> first_file(places, files) is None,
    decreases places.len(),
{
    if places.len() > 0 {
        let rest = places.skip(1);
        law_first_file(rest, files, k - 1);
        assert forall|i: int| 0 <= i < rest.len() implies rest[i] == places[i + 1] by {}
        if !(files.contains(places[0]) && is_usable(places[0])) {
            if 0 < k < places.len() {
                assert(rest[k - 1] == places[k]);
            }
        }
    }
}

/// The option of the session counts before that of all, even where it is empty and so
/// names no shell.
pub proof fn law_named_shells(session: Option<Seq<char>>, global: Option<Seq<char>>)
    ensures
        session matches Some(own) ==> named_shell(session, global) == if own.len() > 0 {
            Some(own)
        } else {
            None
        },
        session is None ==> named_shell(session, global) == match global {
            Some(value) => if value.len() > 0 {
                Some(value)
            } else {
                None
            },
            None => None,
        },
{
}

/// The variables of an environment are listed by name, each once.
pub proof fn law_variables_are_in_order(names: Seq<Seq<char>>, all: Set<Seq<char>>, i: int, j: int)
    requires
        in_order(names, all),
        0 <= i < j < names.len(),
    ensures
        names[i] != names[j],
        text::comes_first(names[i], names[j]),
        all.contains(names[i]),
        forall|name: Seq<char>| #[trigger] all.contains(name) ==> names.contains(name),
{
    assert(crate::spawn::comes_before(names[i], names[j]));
    assert(names.contains(names[i]));
}

/// A piece ends at the next separator.
proof fn lemma_piece_end(path: Seq<char>, from: int, end: int, verbatim: bool)
    requires
        0 <= from <= end <= path.len(),
        forall|k: int| from <= k < end ==> path[k] != '/' && #[trigger] path[k] != '\\',
        end == path.len() || path[end] == '\\',
    ensures
        piece_end(path, from, verbatim) == end,
    decreases end - from,
{
    if from < end {
        lemma_piece_end(path, from + 1, end, verbatim);
    }
}

/// What stands in front of a path: a drive, or a server and a share of it. A plain
/// path has nothing in front.
pub proof fn law_path_prefixes(path: Seq<char>, server: Seq<char>, share: Seq<char>)
    requires
        server.len() > 0 && !server.contains('/') && !server.contains('\\'),
        share.len() > 0 && !share.contains('/') && !share.contains('\\'),
        server != seq!['?'] && server != seq!['.'],
    ensures
        (path.len() > 0 && path[0] != '/' && path[0] != '\\' && has_drive(path)) ==> prefix_len(
            path,
        ) == 2,
        (path.len() > 0 && path[0] != '/' && path[0] != '\\' && !has_drive(path)) ==> prefix_len(
            path,
        ) == 0,
        (path.len() >= 2 && (path[0] == '/' || path[0] == '\\') && path[1] != '/' && path[1]
            != '\\') ==> prefix_len(path) == 0,
        prefix_len(seq!['\\', '\\'] + server + seq!['\\'] + share) == 3 + server.len()
            + share.len(),
{
    let unc = seq!['\\', '\\'] + server + seq!['\\'] + share;
    let s = 2 + server.len() as int;
    let e = s + 1 + share.len() as int;
    assert(unc.len() == e);
    assert(unc[0] == '\\' && unc[1] == '\\' && unc[s] == '\\');
    assert forall|k: int| 2 <= k < s implies unc[k] != '/' && #[trigger] unc[k] != '\\' by {
        assert(unc[k] == server[k - 2]);
        assert(server.contains(server[k - 2]));
    }
    assert forall|k: int| s + 1 <= k < e implies unc[k] != '/' && #[trigger] unc[k] != '\\' by {
        assert(unc[k] == share[k - s - 1]);
        assert(share.contains(share[k - s - 1]));
    }
    lemma_piece_end(unc, 2, s, false);
    lemma_piece_end(unc, s + 1, e, false);
    assert(unc[2] == server[0]);
    if server.len() == 1 {
        assert(server =~= seq![server[0]]);
        assert(unc[3] == '\\');
    } else {
        assert(unc[3] == server[1]);
        assert(server.contains(server[1]));
    }
}

/// The name of a file at the end of a path behind a drive or behind directories.
pub proof fn law_names_of_files(front: Seq<char>, sep: char, name: Seq<char>)
    requires
        sep == '/' || sep == '\\',
        name.len() > 0 && !name.contains('/') && !name.contains('\\'),
        name != seq!['.'] && name != seq!['.', '.'],
        front.len() > 0 && front[0] != '/' && front[0] != '\\',
        !has_drive(front) && !has_drive(front.push(sep) + name),
    ensures
        file_name_of(front.push(sep) + name) == Some(name),
        !has_drive(name) ==> file_name_of(name) == Some(name),
        file_name_of(front.push(sep) + seq!['.', '.']) is None,
{
    reveal_strlit(".");
    reveal_strlit("..");
    assert("."@ =~= seq!['.']);
    assert(".."@ =~= seq!['.', '.']);
    let up = seq!['.', '.'];
    let path = front.push(sep) + name;
    assert(path[0] == front[0]);
    assert(path.skip(0) =~= path);
    law_pieces(front, sep, name);
    assert(path_pieces(path) == pieces(path, false));
    let all = pieces(path, false);
    assert(all.last() == name);
    assert(name.contains(name[0]));
    assert(name.skip(0) =~= name);
    assert(pieces(name, false).last() == name);
    assert(!up.contains('/') && !up.contains('\\'));
    law_pieces(front, sep, up);
    let over = front.push(sep) + up;
    assert(over[0] == front[0]);
    assert(over.skip(0) =~= over);
    assert(!has_drive(over)) by {
        if front.len() >= 2 {
            assert(over[1] == front[1]);
        } else {
            assert(over[1] == sep);
        }
    }
    assert(path_pieces(over) == pieces(over, false));
    assert(pieces(over, false).last() == up);
    assert(up.len() == 2);
}

/// A file with a piece of its path called WindowsApps, in capital or small letters,
/// is an alias and not used; without such a piece it is.
pub proof fn law_aliases(path: Seq<char>, i: int)
    ensures
        (0 <= i < path_pieces(path).len() && text::lowercase(path_pieces(path)[i])
            == text::lowercase("WindowsApps"@)) ==> !is_usable(path),
        (forall|k: int|
            0 <= k < path_pieces(path).len() ==> text::lowercase(#[trigger] path_pieces(path)[k])
                != text::lowercase("WindowsApps"@)) ==> is_usable(path),
{
    if 0 <= i < path_pieces(path).len() && text::lowercase(path_pieces(path)[i])
        == text::lowercase("WindowsApps"@) {
        assert(crate::shell_resolver_windows::is_alias_directory(path_pieces(path)[i]));
    }
}

/// Walking a verbatim path: a name goes behind the others, two dots take the last one
/// away, one dot and nothing leave them alone.
pub proof fn law_walked_paths(names: Seq<Seq<char>>, piece: Seq<char>, more: Seq<Seq<char>>)
    ensures
        walked_all(names, Seq::empty()) == names,
        piece.len() == 0 || piece == seq!['.'] ==> walked_all(names, more.push(piece))
            == walked_all(names, more),
        (piece.len() > 0 && piece != seq!['.'] && piece != seq!['.', '.']) ==> walked_all(
            names,
            more.push(piece),
        ) == walked_all(names, more).push(piece),
        (piece == seq!['.', '.'] && walked_all(names, more).len() > 0 && walked_all(
            names,
            more,
        ).last() != seq!['.'] && walked_all(names, more).last() != seq!['.', '.']) ==> walked_all(
            names,
            more.push(piece),
        ) == walked_all(names, more).drop_last(),
        piece == seq!['.', '.'] && walked_all(names, more).len() == 0 ==> walked_all(
            names,
            more.push(piece),
        ).len() == 0,
        with_separators(names.push(piece)) == with_separators(names) + seq!['\\'] + piece,
        with_separators(Seq::empty()).len() == 0,
{
    reveal_strlit(".");
    reveal_strlit("..");
    assert("."@ =~= seq!['.']);
    assert(".."@ =~= seq!['.', '.']);
    assert(more.push(piece).drop_last() =~= more);
    assert(names.push(piece).drop_last() =~= names);
    if piece == seq!['.', '.'] {
        assert(piece.len() == 2);
    }
}

/// A path is joined to a verbatim directory piece by piece, behind what stands in
/// front of it; a path from the root starts there.
pub proof fn law_verbatim_paths(directory: Seq<char>, path: Seq<char>)
    requires
        is_verbatim(directory),
        path.len() > 0,
        prefix_len(path) == 0,
    ensures
        ({
            let from_root = path[0] == '/' || path[0] == '\\';
            let start = if from_root {
                Seq::empty()
            } else {
                filled(path_pieces(directory))
            };
            let names = walked_all(start, pieces(path, false));
            names.len() > 0 ==> path_joined(directory, path) == directory.take(
                prefix_len(directory),
            ) + with_separators(names)
        }),
{
}

/// A name has an ending where it has a dot other than its first character.
pub proof fn law_name_endings(path: Seq<char>, name: Seq<char>, i: int)
    requires
        file_name_of(path) == Some(name),
    ensures
        0 < i < name.len() && name[i] == '.' ==> crate::shell_resolver_windows::has_extension(path),
        (forall|k: int| 0 < k < name.len() ==> #[trigger] name[k] != '.')
            ==> !crate::shell_resolver_windows::has_extension(path),
{
    if 0 < i < name.len() && name[i] == '.' {
        let found = file_name_of(path)->0;
        assert(0 < i < found.len() && found[i] == '.');
    }
}

/// In a verbatim path only backslashes separate; in any other, slashes do too.
pub proof fn law_separators(c: char, name: Seq<char>)
    ensures
        crate::paths::separates(c, true) <==> c == '\\',
        crate::paths::separates(c, false) <==> c == '\\' || c == '/',
        crate::paths::is_path_separator(c) <==> c == '\\' || c == '/',
        !name.contains('\\') ==> pieces(name, true) == seq![name],
    decreases name.len(),
{
    if name.len() == 0 {
        assert(name =~= Seq::empty());
        assert(pieces(name, true) =~= seq![name]);
    } else if !name.contains('\\') {
        let less = name.drop_last();
        assert(name.contains(name.last()));
        assert(!less.contains('\\')) by {
            if less.contains('\\') {
                let i = choose|i: int| 0 <= i < less.len() && less[i] == '\\';
                assert(name[i] == '\\');
            }
        }
        law_separators(c, less);
        assert(less.push(name.last()) =~= name);
        assert(pieces(name, true) =~= seq![name]);
    }
}

/// A path from the root of a drive keeps the drive of the directory and nothing else
/// of it.
pub proof fn law_rooted_paths(directory: Seq<char>, path: Seq<char>)
    requires
        !is_verbatim(directory),
        path.len() > 0,
        path[0] == '/' || path[0] == '\\',
        prefix_len(path) == 0,
    ensures
        has_drive(directory) ==> path_joined(directory, path) == directory.take(2) + path,
        (directory.len() > 0 && directory[0] != '/' && directory[0] != '\\' && !has_drive(
            directory,
        )) ==> path_joined(directory, path) == path,
{
    assert(directory.take(0) + path =~= path);
}

/// A line of six fields has no shell.
pub proof fn law_short_account_lines(
    a: Seq<char>,
    b: Seq<char>,
    c: Seq<char>,
    d: Seq<char>,
    e: Seq<char>,
    f: Seq<char>,
    uid: u32,
)
    requires
        is_field(a) && is_field(b) && is_field(c) && is_field(d) && is_field(e) && is_field(f),
    ensures
        ({
            let colon = seq![':'];
            line_shell(
                a + colon + (b + colon + (c + colon + (d + colon + (e + colon + f)))),
                uid,
            ) is None
        }),
{
    reveal_strlit(":");
    assert(":"@ =~= seq![':']);
    let colon = seq![':'];
    let five = e + colon + f;
    let four = d + colon + five;
    let three = c + colon + four;
    let two = b + colon + three;
    law_split_takes_pieces_off(a, ':', two);
    law_split_takes_pieces_off(b, ':', three);
    law_split_takes_pieces_off(c, ':', four);
    law_split_takes_pieces_off(d, ':', five);
    law_split_takes_pieces_off(e, ':', f);
    law_split_takes_pieces_off(f, ':', f);
    assert(text::split(a + colon + two, colon) =~= seq![a, b, c, d, e, f]);
}

/// A device has its own name in front of a path; a verbatim path has what stands up to
/// its next backslash, or a drive.
pub proof fn law_device_prefixes(name: Seq<char>)
    requires
        name.len() > 0 && !name.contains('/') && !name.contains('\\'),
    ensures
        prefix_len(seq!['\\', '\\', '.', '\\'] + name) == 4 + name.len(),
        !has_drive(name) ==> prefix_len(seq!['\\', '\\', '?', '\\'] + name) == 4 + name.len(),
        has_drive(name) && name.len() == 2 ==> prefix_len(
            seq!['\\', '\\', '?', '\\'] + name,
        ) == 6,
        is_verbatim(seq!['\\', '\\', '?', '\\'] + name),
        !is_verbatim(seq!['\\', '\\', '.', '\\'] + name),
{
    let device = seq!['\\', '\\', '.', '\\'] + name;
    let verbatim = seq!['\\', '\\', '?', '\\'] + name;
    let n = 4 + name.len() as int;
    assert forall|k: int| 4 <= k < n implies device[k] != '/' && #[trigger] device[k] != '\\' by {
        assert(device[k] == name[k - 4]);
        assert(name.contains(name[k - 4]));
    }
    assert forall|k: int| 4 <= k < n implies verbatim[k] != '/' && #[trigger] verbatim[k]
        != '\\' by {
        assert(verbatim[k] == name[k - 4]);
        assert(name.contains(name[k - 4]));
    }
    lemma_piece_end(device, 4, n, false);
    lemma_piece_end(verbatim, 4, n, true);
    assert(verbatim.skip(4) =~= name);
    if verbatim.len() >= 8 {
        assert(verbatim[7] == name[3]);
        assert(name.contains(name[3]));
    }
    if verbatim.len() > 6 {
        assert(verbatim[6] == name[2]);
        assert(name.contains(name[2]));
    }
}

/// Keeping what is not empty, for one ending more in front.
proof fn lemma_endings_front(first: Seq<char>, rest: Seq<Seq<char>>)
    ensures
        (seq![first] + rest).filter(nonempty()) == if first.len() > 0 {
            seq![first] + rest.filter(nonempty())
        } else {
            rest.filter(nonempty())
        },
    decreases rest.len(),
{
    reveal(Seq::filter);
    let all = seq![first] + rest;
    if rest.len() == 0 {
        assert(all =~= seq![first]);
        assert(all.drop_last() =~= Seq::<Seq<char>>::empty());
        assert(rest.filter(nonempty()) =~= Seq::<Seq<char>>::empty());
        assert(all.drop_last().filter(nonempty()) =~= Seq::<Seq<char>>::empty());
        if first.len() > 0 {
            assert(all.filter(nonempty()) =~= seq![first]);
            assert(seq![first] + rest.filter(nonempty()) =~= seq![first]);
        }
    } else {
        assert(all.drop_last() =~= seq![first] + rest.drop_last());
        lemma_endings_front(first, rest.drop_last());
        assert(all.last() == rest.last());
        let kept = rest.drop_last().filter(nonempty());
        if nonempty()(rest.last()) {
            assert(seq![first] + kept.push(rest.last()) =~= (seq![first] + kept).push(rest.last()));
        }
    }
}

/// One ending that is listed is the one that is tried.
pub proof fn law_one_ending(path: Seq<char>, ending: Seq<char>)
    requires
        !crate::shell_resolver_windows::has_extension(path),
        ending.len() > 0,
        !ending.contains(';'),
    ensures
        endings(path, Some(ending)) == seq![ending],
{
    reveal_strlit(";");
    assert(";"@ =~= seq![';']);
    let none: Seq<Seq<char>> = Seq::empty();
    law_split_takes_pieces_off(ending, ';', ending);
    lemma_endings_front(ending, none);
    assert(none.filter(nonempty()) =~= none) by {
        reveal(Seq::filter);
    }
    assert(seq![ending] + none =~= seq![ending]);
}

/// Nothing in front of a semicolon is no ending.
pub proof fn law_no_ending(path: Seq<char>, rest: Seq<char>)
    ensures
        endings(path, Some(seq![';'] + rest)) == endings(path, Some(rest)),
{
    reveal_strlit(";");
    assert(";"@ =~= seq![';']);
    let empty: Seq<char> = Seq::empty();
    law_split_takes_pieces_off(empty, ';', rest);
    assert(empty + seq![';'] + rest =~= seq![';'] + rest);
    lemma_endings_front(empty, text::split(rest, ";"@));
}

} // verus!

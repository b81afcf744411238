//! The shell of a session, and the programs on the search path, on Windows.
use vstd::prelude::*;

use crate::paths;
use crate::shell_resolver::{find_variable, unless_empty, variable};
use crate::table::KeySet;
use crate::text;

verus! {

/// The environment in which a program is looked up.
#[derive(Debug)]
pub struct Environment {
    /// The variables of the session.
    pub effective: Vec<(String, String)>,
    /// The variables of this process, which stand in for what the session lacks.
    pub process: Vec<(String, String)>,
}

/// The value of the first variable of a name, in whatever case it is written.
pub open spec fn variable_in_any_case(
    environment: Seq<(String, String)>,
    name: Seq<char>,
) -> Option<Seq<char>>
    decreases environment.len(),
{
    if environment.len() == 0 {
        None
    } else if text::lowercase(environment[0].0@) == text::lowercase(name) {
        Some(environment[0].1@)
    } else {
        variable_in_any_case(environment.skip(1), name)
    }
}

/// Computes [`variable_in_any_case`].
fn find_in_any_case(environment: &Vec<(String, String)>, name: &str) -> (r: Option<String>)
    ensures
        r.deep_view() == variable_in_any_case(environment@, name@),
{
    let mut i: usize = 0;
    assert(environment@.skip(0) =~= environment@);
    while i < environment.len()
        invariant
            i <= environment@.len(),
            variable_in_any_case(environment@, name@) == variable_in_any_case(
                environment@.skip(i as int),
                name@,
            ),
        decreases environment.len() - i,
    {
        if text::eq_ignore_case(&environment[i].0, name) {
            return Some(environment[i].1.clone());
        }
        assert(environment@.skip(i as int).skip(1) =~= environment@.skip(i + 1));
        i = i + 1;
    }
    None
}

/// The value of a variable of the session: the one of exactly this name, or else
/// the first of this name in another case.
pub open spec fn session_variable(
    environment: Seq<(String, String)>,
    name: Seq<char>,
) -> Option<Seq<char>> {
    match variable(environment, name) {
        Some(value) => Some(value),
        None => variable_in_any_case(environment, name),
    }
}

/// Computes [`session_variable`].
pub fn environment_os_value(environment: &Vec<(String, String)>, name: &str) -> (r: Option<String>)
    ensures
        r.deep_view() == session_variable(environment@, name@),
{
    match find_variable(environment, name) {
        Some(value) => Some(value),
        None => find_in_any_case(environment, name),
    }
}

impl Environment {
    /// The value of a variable: that of the session, or else that of this
    /// process, whose names have no case.
    pub open spec fn value(self, name: Seq<char>) -> Option<Seq<char>> {
        match session_variable(self.effective@, name) {
            Some(value) => Some(value),
            None => variable_in_any_case(self.process@, name),
        }
    }

    /// The path of the older PowerShell.
    pub open spec fn powershell(self) -> Option<Seq<char>> {
        match self.value("SystemRoot"@) {
            Some(root) => Some(
                paths::path_joined(
                    paths::path_joined(
                        paths::path_joined(
                            paths::path_joined(root, "System32"@),
                            "WindowsPowerShell"@,
                        ),
                        "v1.0"@,
                    ),
                    "powershell.exe"@,
                ),
            ),
            None => None,
        }
    }

    /// The path of the command interpreter.
    pub open spec fn cmd(self) -> Option<Seq<char>> {
        match unless_empty(self.value("COMSPEC"@)) {
            Some(path) => Some(path),
            None => match self.value("SystemRoot"@) {
                Some(root) => Some(
                    paths::path_joined(paths::path_joined(root, "System32"@), "cmd.exe"@),
                ),
                None => None,
            },
        }
    }

    /// The first program of a name on the search path.
    pub open spec fn searched(self, path: Seq<char>, files: Set<Seq<char>>) -> Option<Seq<char>> {
        match self.value("PATH"@) {
            Some(value) => first_file(candidates(path, value, self.value("PATHEXT"@)), files),
            None => None,
        }
    }

    /// The program of a name: the command interpreter and the older PowerShell
    /// have their own places.
    pub open spec fn program(self, path: Seq<char>, files: Set<Seq<char>>) -> Option<Seq<char>> {
        match paths::file_name_of(path) {
            Some(name) => {
                let name = text::lowercase(name);
                if name == "cmd"@ || name == "cmd.exe"@ {
                    self.cmd()
                } else if name == "powershell"@ || name == "powershell.exe"@ {
                    self.powershell()
                } else {
                    self.searched(path, files)
                }
            },
            None => None,
        }
    }

    /// A path with the program that it names, where it is a single name.
    pub open spec fn resolved(self, path: Seq<char>, files: Set<Seq<char>>) -> Seq<char> {
        if paths::lone_name(path) is Some {
            match self.program(path, files) {
                Some(found) => found,
                None => path,
            }
        } else {
            path
        }
    }

    /// The shell where no option names one.
    pub open spec fn default_shell(self, files: Set<Seq<char>>) -> Seq<char> {
        match self.searched("pwsh.exe"@, files) {
            Some(path) => path,
            None => match self.powershell() {
                Some(path) => path,
                None => match self.cmd() {
                    Some(path) => path,
                    None => "cmd.exe"@,
                },
            },
        }
    }
}

/// Computes [`Environment::value`].
pub fn environment_or_process_os_value(environment: &Environment, name: &str) -> (r: Option<String>)
    ensures
        r.deep_view() == environment.value(name@),
{
    match environment_os_value(&environment.effective, name) {
        Some(value) => Some(value),
        None => find_in_any_case(&environment.process, name),
    }
}

/// Whether a file name has an extension: a dot that does not start it.
pub open spec fn has_extension(path: Seq<char>) -> bool {
    match paths::file_name_of(path) {
        Some(name) => exists|i: int| 0 < i < name.len() && #[trigger] name[i] == '.',
        None => false,
    }
}

/// The texts that are not empty.
pub open spec fn nonempty() -> spec_fn(Seq<char>) -> bool {
    |text: Seq<char>| text.len() > 0
}

/// The endings under which a program is looked up: none where its name has an
/// extension, else those that are listed, or the usual ones where none is.
pub open spec fn endings(path: Seq<char>, pathext: Option<Seq<char>>) -> Seq<Seq<char>> {
    let usual = seq![".COM"@, ".EXE"@, ".BAT"@];
    if has_extension(path) {
        seq![Seq::empty()]
    } else {
        match pathext {
            Some(value) => {
                let listed = text::split(value, ";"@).filter(nonempty());
                if listed.len() > 0 {
                    listed
                } else {
                    usual
                }
            },
            None => usual,
        }
    }
}

/// Computes [`endings`].
pub fn executable_extensions(path: &str, pathext: Option<&str>) -> (r: Vec<String>)
    ensures
        r.deep_view() == endings(path@, pathext.deep_view()),
{
    if let Some(name) = paths::file_name(path) {
        let chars = text::to_chars(&name);
        let mut i: usize = 1;
        while i < chars.len()
            invariant
                1 <= i,
                chars@ == name@,
                paths::file_name_of(path@) == Some(name@),
                forall|j: int| 0 < j < i && j < chars@.len() ==> #[trigger] chars@[j] != '.',
            decreases chars.len() - i,
        {
            if chars[i] == '.' {
                proof {
                    let found = paths::file_name_of(path@)->0;
                    assert(found[i as int] == '.');
                    assert(0 < i < found.len());
                    assert(has_extension(path@));
                }
                let mut none: Vec<String> = Vec::new();
                none.push(String::new());
                assert(none.deep_view() =~= seq![Seq::<char>::empty()]);
                return none;
            }
            i = i + 1;
        }
        assert(!has_extension(path@));
    }
    if let Some(value) = pathext {
        proof {
            reveal_strlit(";");
        }
        let all = text::split_on(value, ";");
        let ghost seen = all.deep_view();
        let mut listed: Vec<String> = Vec::new();
        let mut i: usize = 0;
        proof {
            reveal(Seq::filter);
            assert(seen.take(0).len() == 0);
            assert(listed.deep_view() =~= seen.take(0).filter(nonempty()));
        }
        while i < all.len()
            invariant
                i <= all@.len(),
                seen == all.deep_view(),
                listed.deep_view() == seen.take(i as int).filter(nonempty()),
            decreases all.len() - i,
        {
            let ghost before = listed.deep_view();
            if !all[i].as_str().is_empty() {
                listed.push(all[i].clone());
                assert(listed.deep_view() =~= before.push(all@[i as int]@));
            }
            proof {
                reveal(Seq::filter);
                assert(seen.take(i + 1).drop_last() =~= seen.take(i as int));
                assert(seen.take(i + 1).last() == all@[i as int]@);
            }
            i = i + 1;
        }
        assert(seen.take(i as int) =~= seen);
        if listed.len() > 0 {
            return listed;
        }
    }
    let mut usual: Vec<String> = Vec::new();
    usual.push(".COM".to_owned());
    usual.push(".EXE".to_owned());
    usual.push(".BAT".to_owned());
    assert(usual.deep_view() =~= seq![".COM"@, ".EXE"@, ".BAT"@]);
    usual
}

/// The directories of a search path from some point on: semicolons separate
/// them, but not within quotes, and the quotes are left out.
pub open spec fn directories_from(
    s: Seq<char>,
    in_quotes: bool,
    current: Seq<char>,
) -> Seq<Seq<char>>
    decreases s.len(),
{
    if s.len() == 0 {
        seq![current]
    } else if s[0] == '"' {
        directories_from(s.skip(1), !in_quotes, current)
    } else if s[0] == ';' && !in_quotes {
        seq![current] + directories_from(s.skip(1), false, Seq::empty())
    } else {
        directories_from(s.skip(1), in_quotes, current.push(s[0]))
    }
}

/// The directories of a search path.
pub open spec fn directories(value: Seq<char>) -> Seq<Seq<char>> {
    directories_from(value, false, Seq::empty())
}

/// Computes [`directories`].
pub fn split_paths(value: &str) -> (r: Vec<String>)
    ensures
        r.deep_view() == directories(value@),
{
    let chars = text::to_chars(value);
    let mut out: Vec<String> = Vec::new();
    let mut current = String::new();
    let mut in_quotes = false;
    let mut i: usize = 0;
    assert(chars@.skip(0) =~= chars@);
    assert(current@ =~= Seq::empty());
    assert(out.deep_view() =~= Seq::empty());
    assert(Seq::empty() + directories(value@) =~= directories(value@));
    while i < chars.len()
        invariant
            i <= chars@.len(),
            chars@ == value@,
            out.deep_view() + directories_from(chars@.skip(i as int), in_quotes, current@)
                == directories(value@),
        decreases chars.len() - i,
    {
        let ghost rest = chars@.skip(i as int);
        let ghost before = out.deep_view();
        assert(rest.skip(1) =~= chars@.skip(i + 1));
        let c = chars[i];
        if c == '"' {
            in_quotes = !in_quotes;
        } else if c == ';' && !in_quotes {
            let ghost done = current@;
            out.push(current);
            current = String::new();
            assert(current@ =~= Seq::empty());
            assert(out.deep_view() =~= before.push(done));
            assert(before + (seq![done] + directories_from(rest.skip(1), false, Seq::empty()))
                =~= out.deep_view() + directories_from(rest.skip(1), false, Seq::empty()));
        } else {
            current.push(c);
        }
        i = i + 1;
    }
    let ghost before = out.deep_view();
    let ghost done = current@;
    out.push(current);
    assert(out.deep_view() =~= before + seq![done]);
    out
}

/// Whether a component is the directory of application aliases.
pub open spec fn is_alias_directory(component: Seq<char>) -> bool {
    text::lowercase(component) == text::lowercase("WindowsApps"@)
}

/// Whether a path can be used for a shell: no component of it is the directory of
/// application aliases, which cannot be started in a terminal.
pub open spec fn is_usable(path: Seq<char>) -> bool {
    let pieces = paths::path_pieces(path);
    forall|i: int| 0 <= i < pieces.len() ==> !is_alias_directory(#[trigger] pieces[i])
}

/// Decides [`is_usable`].
pub fn is_usable_shell_candidate(path: &str) -> (r: bool)
    ensures
        r == is_usable(path@),
{
    let pieces = paths::pieces_of_path(path);
    let ghost all = paths::path_pieces(path@);
    let mut i: usize = 0;
    while i < pieces.len()
        invariant
            i <= pieces@.len(),
            all == paths::path_pieces(path@),
            all == pieces.deep_view(),
            forall|j: int| 0 <= j < i ==> !is_alias_directory(#[trigger] all[j]),
        decreases pieces.len() - i,
    {
        assert(all[i as int] == pieces@[i as int]@);
        if text::eq_ignore_case(&pieces[i], "WindowsApps") {
            return false;
        }
        i = i + 1;
    }
    true
}

/// The places of a program in a directory, one for each ending.
pub open spec fn places(
    directory: Seq<char>,
    path: Seq<char>,
    endings: Seq<Seq<char>>,
) -> Seq<Seq<char>> {
    endings.map_values(|ending: Seq<char>| paths::path_joined(directory, path + ending))
}

/// The places of a program in some directories, in order.
pub open spec fn places_in(
    directories: Seq<Seq<char>>,
    path: Seq<char>,
    endings: Seq<Seq<char>>,
) -> Seq<Seq<char>>
    decreases directories.len(),
{
    if directories.len() == 0 {
        Seq::empty()
    } else {
        places_in(directories.drop_last(), path, endings) + places(
            directories.last(),
            path,
            endings,
        )
    }
}

/// The places on a search path where a program is looked up, in order.
pub open spec fn candidates(
    path: Seq<char>,
    path_value: Seq<char>,
    pathext: Option<Seq<char>>,
) -> Seq<Seq<char>> {
    places_in(directories(path_value), path, endings(path, pathext))
}

/// Computes [`candidates`].
pub fn search_candidates(path: &str, path_value: &str, pathext: Option<&str>) -> (r: Vec<String>)
    ensures
        r.deep_view() == candidates(path@, path_value@, pathext.deep_view()),
{
    let extensions = executable_extensions(path, pathext);
    let ghost ends = extensions.deep_view();
    let all = split_paths(path_value);
    let ghost dirs = all.deep_view();
    let mut out: Vec<String> = Vec::new();
    let mut i: usize = 0;
    assert(dirs.take(0).len() == 0);
    assert(out.deep_view() =~= Seq::empty());
    while i < all.len()
        invariant
            i <= all@.len(),
            dirs == all.deep_view(),
            ends == extensions.deep_view(),
            out.deep_view() == places_in(dirs.take(i as int), path@, ends),
        decreases all.len() - i,
    {
        let ghost before = out.deep_view();
        let ghost here = places(dirs[i as int], path@, ends);
        proof {
            assert(dirs.take(i + 1).drop_last() =~= dirs.take(i as int));
            assert(dirs[i as int] == all@[i as int]@);
        }
        let mut k: usize = 0;
        assert(out.deep_view() =~= before + here.take(0));
        while k < extensions.len()
            invariant
                i < all@.len(),
                k <= extensions@.len(),
                dirs == all.deep_view(),
                dirs[i as int] == all@[i as int]@,
                ends == extensions.deep_view(),
                here == places(dirs[i as int], path@, ends),
                out.deep_view() == before + here.take(k as int),
            decreases extensions.len() - k,
        {
            let mut file = path.to_owned();
            file.append(&extensions[k]);
            let place = paths::join_path(&all[i], &file);
            let ghost earlier = out.deep_view();
            proof {
                assert(ends[k as int] == extensions@[k as int]@);
                assert(here[k as int] == place@);
            }
            out.push(place);
            assert(out.deep_view() =~= earlier.push(here[k as int]));
            assert(out.deep_view() =~= before + here.take(k + 1));
            k = k + 1;
        }
        assert(here.take(k as int) =~= here);
        i = i + 1;
    }
    assert(dirs.take(i as int) =~= dirs);
    out
}

/// The first of some places that is a file and can be used.
pub open spec fn first_file(places: Seq<Seq<char>>, files: Set<Seq<char>>) -> Option<Seq<char>>
    decreases places.len(),
{
    if places.len() == 0 {
        None
    } else if files.contains(places[0]) && is_usable(places[0]) {
        Some(places[0])
    } else {
        first_file(places.skip(1), files)
    }
}

/// The first place on a search path where a program is, given the places that
/// are files.
pub fn search_path_in(
    path: &str,
    path_value: &str,
    pathext: Option<&str>,
    files: &KeySet<String>,
) -> (r: Option<String>)
    ensures
        r.deep_view() == first_file(candidates(path@, path_value@, pathext.deep_view()), files@),
{
    let places = search_candidates(path, path_value, pathext);
    let ghost all = places.deep_view();
    let mut i: usize = 0;
    assert(all.skip(0) =~= all);
    while i < places.len()
        invariant
            i <= places@.len(),
            all == places.deep_view(),
            first_file(all, files@) == first_file(all.skip(i as int), files@),
            all == candidates(path@, path_value@, pathext.deep_view()),
        decreases places.len() - i,
    {
        assert(all[i as int] == places@[i as int]@);
        if files.contains(&places[i]) && is_usable_shell_candidate(&places[i]) {
            return Some(places[i].clone());
        }
        assert(all.skip(i as int).skip(1) =~= all.skip(i + 1));
        i = i + 1;
    }
    None
}

/// The first program of a name on the search path of an environment.
pub fn search_path(path: &str, environment: &Environment, files: &KeySet<String>) -> (r: Option<
    String,
>)
    ensures
        r.deep_view() == environment.searched(path@, files@),
{
    match environment_or_process_os_value(environment, "PATH") {
        Some(value) => {
            let pathext = environment_or_process_os_value(environment, "PATHEXT");
            match &pathext {
                Some(listed) => search_path_in(path, &value, Some(listed), files),
                None => search_path_in(path, &value, None, files),
            }
        },
        None => None,
    }
}

/// Computes [`Environment::powershell`].
pub fn windows_powershell_path(environment: &Environment) -> (r: Option<String>)
    ensures
        r.deep_view() == environment.powershell(),
{
    match environment_or_process_os_value(environment, "SystemRoot") {
        Some(root) => {
            let system = paths::join_path(&root, "System32");
            let shell = paths::join_path(&system, "WindowsPowerShell");
            let version = paths::join_path(&shell, "v1.0");
            Some(paths::join_path(&version, "powershell.exe"))
        },
        None => None,
    }
}

/// Computes [`Environment::cmd`].
pub fn cmd_shell_path(environment: &Environment) -> (r: Option<String>)
    ensures
        r.deep_view() == environment.cmd(),
{
    if let Some(path) = environment_or_process_os_value(environment, "COMSPEC") {
        if !path.as_str().is_empty() {
            return Some(path);
        }
    }
    match environment_or_process_os_value(environment, "SystemRoot") {
        Some(root) => {
            let system = paths::join_path(&root, "System32");
            Some(paths::join_path(&system, "cmd.exe"))
        },
        None => None,
    }
}

/// The program of a name; see [`Environment::program`].
pub fn find_program_on_path(path: &str, environment: &Environment, files: &KeySet<String>) -> (r:
    Option<String>)
    ensures
        r.deep_view() == environment.program(path@, files@),
{
    let name = match paths::file_name(path) {
        Some(name) => text::to_lower(&name),
        None => {
            return None;
        },
    };
    if text::str_eq(&name, "cmd") || text::str_eq(&name, "cmd.exe") {
        return cmd_shell_path(environment);
    }
    if text::str_eq(&name, "powershell") || text::str_eq(&name, "powershell.exe") {
        return windows_powershell_path(environment);
    }
    search_path(path, environment, files)
}

/// The path of a program as it is used; see [`Environment::resolved`].
pub fn resolve_program_path(path: &str, environment: &Environment, files: &KeySet<String>) -> (r:
    String)
    ensures
        r@ == environment.resolved(path@, files@),
{
    if !paths::is_lone_name(path) {
        return path.to_owned();
    }
    match find_program_on_path(path, environment, files) {
        Some(found) => found,
        None => path.to_owned(),
    }
}

/// A shell path as it is used: resolved in the environment of this process.
pub fn normalize_shell_path(
    path: &str,
    process: Vec<(String, String)>,
    files: &KeySet<String>,
) -> (r: String)
    ensures
        r@ == (Environment { effective: process, process }).resolved(path@, files@),
{
    let mut effective: Vec<(String, String)> = Vec::new();
    let mut i: usize = 0;
    while i < process.len()
        invariant
            i <= process@.len(),
            effective@ == process@.take(i as int),
        decreases process.len() - i,
    {
        let pair = (process[i].0.clone(), process[i].1.clone());
        assert(pair == process@[i as int]);
        effective.push(pair);
        assert(effective@ =~= process@.take(i + 1));
        i = i + 1;
    }
    assert(process@.take(i as int) =~= process@);
    let environment = Environment { effective, process };
    resolve_program_path(path, &environment, files)
}

/// The shell where no option names one; see [`Environment::default_shell`].
pub fn default_shell_path(environment: &Environment, files: &KeySet<String>) -> (r: String)
    ensures
        r@ == environment.default_shell(files@),
{
    if let Some(path) = search_path("pwsh.exe", environment, files) {
        return path;
    }
    if let Some(path) = windows_powershell_path(environment) {
        return path;
    }
    match cmd_shell_path(environment) {
        Some(path) => path,
        None => "cmd.exe".to_owned(),
    }
}

/// The shell that an option names: that of the session before the global one,
/// unless it is empty.
pub open spec fn named_shell(
    session_option: Option<Seq<char>>,
    global_option: Option<Seq<char>>,
) -> Option<Seq<char>> {
    match session_option {
        Some(value) => unless_empty(Some(value)),
        None => unless_empty(global_option),
    }
}

/// Computes [`named_shell`].
pub fn explicit_default_shell<'a>(
    session_option: Option<&'a str>,
    global_option: Option<&'a str>,
) -> (r: Option<&'a str>)
    ensures
        r.deep_view() == named_shell(session_option.deep_view(), global_option.deep_view()),
{
    let value = match session_option {
        Some(value) => Some(value),
        None => global_option,
    };
    match value {
        Some(value) => if value.is_empty() {
            None
        } else {
            Some(value)
        },
        None => None,
    }
}

/// The shell of a session: the one that an option names, looked up in its
/// environment, or else the default one.
pub fn resolve_shell_path(
    session_option: Option<&str>,
    global_option: Option<&str>,
    environment: &Environment,
    files: &KeySet<String>,
) -> (r: String)
    ensures
        r@ == match named_shell(session_option.deep_view(), global_option.deep_view()) {
            Some(path) => environment.resolved(path, files@),
            None => environment.default_shell(files@),
        },
{
    match explicit_default_shell(session_option, global_option) {
        Some(path) => resolve_program_path(path, environment, files),
        None => default_shell_path(environment, files),
    }
}

/// A program that is found on the search path is a file, and no application
/// alias.
pub proof fn law_search_finds_usable_files(
    environment: Environment,
    path: Seq<char>,
    files: Set<Seq<char>>,
)
    ensures
        environment.searched(path, files) matches Some(found) ==> files.contains(found)
            && is_usable(found),
{
    if let Some(value) = environment.value("PATH"@) {
        lemma_first_file(candidates(path, value, environment.value("PATHEXT"@)), files);
    }
}

/// What is found among some places is a file that can be used.
proof fn lemma_first_file(places: Seq<Seq<char>>, files: Set<Seq<char>>)
    ensures
        first_file(places, files) matches Some(found) ==> files.contains(found) && is_usable(
            found,
        ),
    decreases places.len(),
{
    if places.len() > 0 {
        lemma_first_file(places.skip(1), files);
    }
}

} // verus!

//! The shell of a session on Unix.
use vstd::prelude::*;

use crate::text;

verus! {

/// The shell where nothing names one.
pub const DEFAULT_SHELL: &'static str = "/bin/sh";

/// The value of the first variable of a name.
pub open spec fn variable(environment: Seq<(String, String)>, name: Seq<char>) -> Option<Seq<char>>
    decreases environment.len(),
{
    if environment.len() == 0 {
        None
    } else if environment[0].0@ == name {
        Some(environment[0].1@)
    } else {
        variable(environment.skip(1), name)
    }
}

/// Computes [`variable`].
pub fn find_variable(environment: &Vec<(String, String)>, name: &str) -> (r: Option<String>)
    ensures
        r.deep_view() == variable(environment@, name@),
{
    let mut i: usize = 0;
    assert(environment@.skip(0) =~= environment@);
    while i < environment.len()
        invariant
            i <= environment@.len(),
            variable(environment@, name@) == variable(environment@.skip(i as int), name@),
        decreases environment.len() - i,
    {
        if text::str_eq(&environment[i].0, name) {
            return Some(environment[i].1.clone());
        }
        assert(environment@.skip(i as int).skip(1) =~= environment@.skip(i + 1));
        i = i + 1;
    }
    None
}

/// A text, unless it is empty.
pub open spec fn unless_empty(value: Option<Seq<char>>) -> Option<Seq<char>> {
    match value {
        Some(text) => if text.len() > 0 {
            Some(text)
        } else {
            None
        },
        None => None,
    }
}

/// The login shell that a line of the user table gives for a user: a line of at
/// least seven fields, of which the third is the user's number and the seventh
/// the shell.
pub open spec fn line_shell(line: Seq<char>, uid: u32) -> Option<Seq<char>> {
    let fields = text::split(line, ":"@);
    if fields.len() >= 7 && text::parsed_u32(fields[2]) == Some(uid) {
        unless_empty(Some(fields[6]))
    } else {
        None
    }
}

/// Computes [`line_shell`].
pub fn passwd_shell_for_uid(line: &str, uid: u32) -> (r: Option<String>)
    ensures
        r.deep_view() == line_shell(line@, uid),
{
    proof {
        reveal_strlit(":");
    }
    let fields = text::split_on(line, ":");
    let ghost all = fields.deep_view();
    if fields.len() < 7 {
        return None;
    }
    assert(all[2] == fields@[2]@ && all[6] == fields@[6]@);
    match text::parse_u32(&fields[2]) {
        Some(parsed) => {
            if parsed == uid && !fields[6].as_str().is_empty() {
                Some(fields[6].clone())
            } else {
                None
            }
        },
        None => None,
    }
}

/// The login shell that the first line with one gives for a user.
pub open spec fn first_shell(lines: Seq<Seq<char>>, uid: u32) -> Option<Seq<char>>
    decreases lines.len(),
{
    if lines.len() == 0 {
        None
    } else {
        match line_shell(lines[0], uid) {
            Some(shell) => Some(shell),
            None => first_shell(lines.skip(1), uid),
        }
    }
}

/// The login shell of a user, given the text of the user table where it could be
/// read.
pub open spec fn login_shell(passwd: Option<Seq<char>>, uid: u32) -> Option<Seq<char>> {
    match passwd {
        Some(table) => first_shell(text::lines(table), uid),
        None => None,
    }
}

/// `rustix::process::getuid`: the number of the user that this process runs for,
/// which may be any.
#[verifier::external_body]
fn current_uid() -> (r: u32) {
    rustix::process::getuid().as_raw()
}

/// The login shell of the user that this process runs for, given the text of the
/// user table where it could be read.
pub fn current_user_login_shell(passwd: Option<&str>) -> (r: Option<String>)
    ensures
        exists|uid: u32| r.deep_view() == #[trigger] login_shell(passwd.deep_view(), uid),
{
    let uid = current_uid();
    login_shell_of(passwd, uid)
}

/// Computes [`login_shell`].
pub fn login_shell_of(passwd: Option<&str>, uid: u32) -> (r: Option<String>)
    ensures
        r.deep_view() == login_shell(passwd.deep_view(), uid),
{
    let table = match passwd {
        Some(table) => table,
        None => {
            return None;
        },
    };
    let lines = text::lines_of(table);
    let ghost all = lines.deep_view();
    let mut i: usize = 0;
    assert(all.skip(0) =~= all);
    while i < lines.len()
        invariant
            i <= lines@.len(),
            all == lines.deep_view(),
            first_shell(all, uid) == first_shell(all.skip(i as int), uid),
            first_shell(all, uid) == login_shell(passwd.deep_view(), uid),
        decreases lines.len() - i,
    {
        assert(all[i as int] == lines@[i as int]@);
        let found = passwd_shell_for_uid(&lines[i], uid);
        if found.is_some() {
            return found;
        }
        assert(all.skip(i as int).skip(1) =~= all.skip(i + 1));
        i = i + 1;
    }
    None
}

/// What decides on the shell of a session.
pub struct ShellSources<'a> {
    /// The `default-shell` option of the session, where there is a session that
    /// has a value for it.
    pub session_option: Option<&'a str>,
    /// The global `default-shell` option.
    pub global_option: Option<&'a str>,
    /// The environment of the session.
    pub environment: &'a Vec<(String, String)>,
    /// The text of the user table, where it could be read.
    pub passwd: Option<&'a str>,
}

impl<'a> ShellSources<'a> {
    /// The option that counts: that of the session before the global one.
    pub open spec fn option(self) -> Option<Seq<char>> {
        match self.session_option {
            Some(value) => Some(value@),
            None => self.global_option.deep_view(),
        }
    }

    /// The shell of a user: the option, the `SHELL` variable or the login shell, whichever
    /// is there first, or [`DEFAULT_SHELL`]. An option or a variable that is
    /// empty does not count; an empty option of the session hides the global one.
    pub open spec fn shell(self, uid: u32) -> Seq<char> {
        match unless_empty(self.option()) {
            Some(shell) => shell,
            None => match unless_empty(variable(self.environment@, "SHELL"@)) {
                Some(shell) => shell,
                None => match login_shell(self.passwd.deep_view(), uid) {
                    Some(shell) => shell,
                    None => DEFAULT_SHELL@,
                },
            },
        }
    }
}

impl<'a> ShellSources<'a> {
    /// What is there before the user table counts.
    fn named(&self) -> (r: Option<String>)
        ensures
            r.deep_view() == match unless_empty(self.option()) {
                Some(shell) => Some(shell),
                None => unless_empty(variable(self.environment@, "SHELL"@)),
            },
    {
        let option = match self.session_option {
            Some(value) => Some(value),
            None => self.global_option,
        };
        if let Some(value) = option {
            if !value.is_empty() {
                return Some(normalize_shell_path(value.to_owned()));
            }
        }
        match find_variable(self.environment, "SHELL") {
            Some(value) => if value.as_str().is_empty() {
                None
            } else {
                Some(value)
            },
            None => None,
        }
    }
}

/// The shell of a session of the user that this process runs for; see
/// [`ShellSources::shell`].
pub fn resolve_shell_path(sources: &ShellSources<'_>) -> (r: String)
    ensures
        exists|uid: u32| r@ == #[trigger] sources.shell(uid),
{
    let uid = current_uid();
    resolve_shell_path_of(sources, uid)
}

/// The shell of a session of a user; see [`ShellSources::shell`].
pub fn resolve_shell_path_of(sources: &ShellSources<'_>, uid: u32) -> (r: String)
    ensures
        r@ == sources.shell(uid),
{
    if let Some(shell) = sources.named() {
        return normalize_shell_path(shell);
    }
    match login_shell_of(sources.passwd, uid) {
        Some(shell) => normalize_shell_path(shell),
        None => default_shell_path(),
    }
}

/// A shell path as it is used: as it stands.
pub fn normalize_shell_path(path: String) -> (r: String)
    ensures
        r == path,
{
    path
}

/// The path of a program as it is used: as it stands, whatever the environment.
pub fn resolve_program_path(path: &str, _environment: &Vec<(String, String)>) -> (r: String)
    ensures
        r@ == path@,
{
    path.to_owned()
}

/// The shell where nothing names one.
pub fn default_shell_path() -> (r: String)
    ensures
        r@ == DEFAULT_SHELL@,
{
    DEFAULT_SHELL.to_owned()
}

/// A session always gets a shell, and its path is not empty.
pub proof fn law_shell_is_named(sources: ShellSources<'_>, uid: u32)
    ensures
        sources.shell(uid).len() > 0,
{
    reveal_strlit("/bin/sh");
    let lines = match sources.passwd {
        Some(table) => text::lines(table@),
        None => Seq::empty(),
    };
    lemma_first_shell(lines, uid);
}

/// A login shell is not empty.
proof fn lemma_first_shell(lines: Seq<Seq<char>>, uid: u32)
    ensures
        first_shell(lines, uid) matches Some(shell) ==> shell.len() > 0,
    decreases lines.len(),
{
    if lines.len() > 0 {
        lemma_first_shell(lines.skip(1), uid);
    }
}

} // verus!

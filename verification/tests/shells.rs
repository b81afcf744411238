//! Finding shells, and starting children.
use rmux::paths::{file_name, join_path, prefix_length};
use rmux::shell_resolver::{
    self, current_user_login_shell, login_shell_of, passwd_shell_for_uid, resolve_shell_path_of,
    ShellSources,
};
use rmux::shell_resolver_windows::{
    cmd_shell_path, default_shell_path, environment_os_value, executable_extensions,
    explicit_default_shell, find_program_on_path, is_usable_shell_candidate, normalize_shell_path,
    resolve_program_path, resolve_shell_path, search_candidates, search_path_in, split_paths,
    windows_powershell_path, Environment,
};
use rmux::spawn::{
    attribute_words, command_line, environment_block, interrupt_child, kill_child, quote_arg,
    spawn_child, try_wait_child, wait_child, wide_null, ChildCommand, KillAction, Signal, SpawnStage, SpawnStep,
    WaitVerdict, WAIT_FAILED, WAIT_OBJECT_0, WAIT_TIMEOUT,
};
use rmux::table::KeySet;

fn files(names: &[&str]) -> KeySet<String> {
    let mut set = KeySet::new();
    for name in names {
        set.insert(name.to_string());
    }
    set
}

fn pairs(list: &[(&str, &str)]) -> Vec<(String, String)> {
    list.iter()
        .map(|(name, value)| (name.to_string(), value.to_string()))
        .collect()
}

fn environment(list: &[(&str, &str)]) -> Environment {
    Environment {
        effective: pairs(list),
        process: Vec::new(),
    }
}

#[test]
fn search_path_skips_windowsapps_alias_candidates() {
    let found = search_path_in(
        "pwsh.exe",
        r"C:\root\WindowsApps;C:\root\regular-bin",
        Some(".EXE"),
        &files(&[r"C:\root\WindowsApps\pwsh.exe", r"C:\root\regular-bin\pwsh.exe"]),
    )
    .expect("regular pwsh should resolve");

    assert_eq!(found, r"C:\root\regular-bin\pwsh.exe");
}

#[test]
fn search_path_rejects_only_windowsapps_alias_candidates() {
    let found = search_path_in(
        "pwsh.exe",
        r"C:\root\WindowsApps",
        Some(".EXE"),
        &files(&[r"C:\root\WindowsApps\pwsh.exe"]),
    );

    assert_eq!(found, None);
}

#[test]
fn resolve_program_path_uses_effective_environment_path_case_insensitively() {
    let environment = environment(&[("Path", r"C:\root\bin"), ("PATHEXT", ".EXE")]);
    let files = files(&[r"C:\root\bin\rmux-probe.EXE"]);

    assert_eq!(
        resolve_program_path("rmux-probe", &environment, &files),
        r"C:\root\bin\rmux-probe.EXE"
    );
}

#[test]
fn explicit_default_shell_uses_effective_environment_path() {
    let environment = environment(&[("PATH", r"C:\root\bin"), ("PATHEXT", ".EXE")]);
    let files = files(&[r"C:\root\bin\custom-shell.EXE"]);

    assert_eq!(
        resolve_shell_path(None, Some("custom-shell"), &environment, &files),
        r"C:\root\bin\custom-shell.EXE"
    );
}

#[test]
fn a_path_is_used_as_it_stands() {
    let environment = environment(&[("PATH", r"C:\bin")]);
    let files = files(&[r"C:\bin\tool.exe"]);
    for path in [r"C:\other\tool.exe", r".\tool.exe", "C:tool.exe", "..", ""] {
        assert_eq!(resolve_program_path(path, &environment, &files), path);
    }
    assert_eq!(resolve_program_path("missing.exe", &environment, &files), "missing.exe");
}

#[test]
fn the_system_shells_have_their_own_places() {
    let environment = environment(&[("SystemRoot", r"C:\Windows"), ("PATH", r"C:\bin")]);
    let none = files(&[]);
    let powershell = r"C:\Windows\System32\WindowsPowerShell\v1.0\powershell.exe";
    assert_eq!(windows_powershell_path(&environment), Some(powershell.to_owned()));
    assert_eq!(
        cmd_shell_path(&environment),
        Some(r"C:\Windows\System32\cmd.exe".to_owned())
    );
    assert_eq!(
        find_program_on_path("PowerShell", &environment, &none),
        Some(powershell.to_owned())
    );
    assert_eq!(
        resolve_program_path("CMD.EXE", &environment, &none),
        r"C:\Windows\System32\cmd.exe"
    );
}

#[test]
fn comspec_names_the_interpreter_unless_it_is_empty() {
    let given = environment(&[("comspec", r"D:\cmd.exe"), ("SystemRoot", r"C:\Windows")]);
    assert_eq!(cmd_shell_path(&given), Some(r"D:\cmd.exe".to_owned()));
    let empty = environment(&[("COMSPEC", ""), ("SystemRoot", r"C:\Windows")]);
    assert_eq!(
        cmd_shell_path(&empty),
        Some(r"C:\Windows\System32\cmd.exe".to_owned())
    );
    assert_eq!(cmd_shell_path(&environment(&[])), None);
}

#[test]
fn the_default_shell_is_the_newest_that_is_there() {
    let environment = environment(&[("SystemRoot", r"C:\Windows"), ("PATH", r"C:\pwsh")]);
    assert_eq!(
        default_shell_path(&environment, &files(&[r"C:\pwsh\pwsh.exe"])),
        r"C:\pwsh\pwsh.exe"
    );
    assert_eq!(
        default_shell_path(&environment, &files(&[])),
        r"C:\Windows\System32\WindowsPowerShell\v1.0\powershell.exe"
    );
    let bare = Environment {
        effective: Vec::new(),
        process: Vec::new(),
    };
    assert_eq!(default_shell_path(&bare, &files(&[])), "cmd.exe");
}

#[test]
fn variables_are_found_exactly_first() {
    let list = pairs(&[("path", "lower"), ("PATH", "upper")]);
    assert_eq!(environment_os_value(&list, "PATH"), Some("upper".to_owned()));
    assert_eq!(environment_os_value(&list, "Path"), Some("lower".to_owned()));
    assert_eq!(environment_os_value(&list, "HOME"), None);
}

#[test]
fn the_process_stands_in_for_what_a_session_lacks() {
    let files = files(&[r"C:\process\tool.exe"]);
    let environment = Environment {
        effective: pairs(&[("HOME", r"C:\home")]),
        process: pairs(&[("Path", r"C:\process")]),
    };
    assert_eq!(
        resolve_program_path("tool.exe", &environment, &files),
        r"C:\process\tool.exe"
    );
    assert_eq!(
        normalize_shell_path("tool.exe", pairs(&[("PATH", r"C:\process")]), &files),
        r"C:\process\tool.exe"
    );
}

#[test]
fn search_paths_are_split_outside_quotes() {
    assert_eq!(
        split_paths(r#"c:\foo;c:\som"e;di"r;c:\bar"#),
        vec![r"c:\foo", r"c:\some;dir", r"c:\bar"]
    );
    assert_eq!(split_paths(""), vec![""]);
    assert_eq!(split_paths("a;"), vec!["a", ""]);
}

#[test]
fn programs_are_looked_up_under_every_ending() {
    assert_eq!(executable_extensions("tool.exe", Some(".COM")), vec![""]);
    assert_eq!(executable_extensions("tool", Some(".COM;;.EXE")), vec![".COM", ".EXE"]);
    assert_eq!(executable_extensions("tool", Some(";")), vec![".COM", ".EXE", ".BAT"]);
    assert_eq!(executable_extensions(".profile", None), vec![".COM", ".EXE", ".BAT"]);
    assert_eq!(
        search_candidates("tool", r"C:\a;C:\b\", Some(".X")),
        vec![r"C:\a\tool.X", r"C:\b\tool.X"]
    );
}

#[test]
fn aliases_are_not_used_in_whatever_case() {
    assert!(!is_usable_shell_candidate(r"C:\Users\me\windowsapps\pwsh.exe"));
    assert!(!is_usable_shell_candidate(r"C:WindowsApps/pwsh.exe"));
    assert!(is_usable_shell_candidate(r"C:\WindowsApps2\pwsh.exe"));
    assert!(is_usable_shell_candidate(r"\\WindowsApps\share\pwsh.exe"));
    assert!(is_usable_shell_candidate(r"\\?\UNC\server\WindowsApps\pwsh.exe"));
    assert!(!is_usable_shell_candidate(r"\\?\UNC\server\share\WindowsApps\pwsh.exe"));
    assert!(is_usable_shell_candidate(r"\\?\C:\a/WindowsApps/b"));
    assert!(!is_usable_shell_candidate(r"\\?\C:\WindowsApps\b"));
}

#[test]
fn an_empty_session_option_hides_the_global_one() {
    assert_eq!(explicit_default_shell(Some(""), Some("zsh")), None);
    assert_eq!(explicit_default_shell(None, Some("zsh")), Some("zsh"));
    assert_eq!(explicit_default_shell(Some("fish"), Some("zsh")), Some("fish"));
    assert_eq!(explicit_default_shell(None, None), None);
}

const PASSWD: &str = "root:x:0:0:root:/root:/bin/bash\n\
    short:x:1000:1000\n\
    quiet:x:1000:1000:::\n\
    me:x:1000:1000:Me:/home/me:/bin/zsh\n";

#[test]
fn the_login_shell_is_that_of_the_first_full_line() {
    assert_eq!(login_shell_of(Some(PASSWD), 0), Some("/bin/bash".to_owned()));
    assert_eq!(login_shell_of(Some(PASSWD), 1000), Some("/bin/zsh".to_owned()));
    assert_eq!(login_shell_of(Some(PASSWD), 7), None);
    assert_eq!(login_shell_of(None, 0), None);
    assert_eq!(passwd_shell_for_uid("a:b:c:d:e:f:/bin/sh", 0), None);
}

#[test]
fn the_unix_shell_comes_from_the_first_source() {
    let variables = pairs(&[("SHELL", "/bin/fish")]);
    let none: Vec<(String, String)> = Vec::new();
    let sources = ShellSources {
        session_option: None,
        global_option: Some("/bin/ksh"),
        environment: &variables,
        passwd: Some(PASSWD),
    };
    assert_eq!(resolve_shell_path_of(&sources, 0), "/bin/ksh");
    let sources = ShellSources {
        session_option: Some(""),
        ..sources
    };
    assert_eq!(resolve_shell_path_of(&sources, 0), "/bin/fish");
    let sources = ShellSources {
        environment: &none,
        ..sources
    };
    assert_eq!(resolve_shell_path_of(&sources, 0), "/bin/bash");
    let sources = ShellSources {
        passwd: None,
        ..sources
    };
    assert_eq!(resolve_shell_path_of(&sources, 0), "/bin/sh");
    assert_eq!(shell_resolver::resolve_program_path("tool", &none), "tool");
}

#[test]
fn the_login_shell_is_that_of_the_user_of_this_process() {
    let uid = rustix::process::getuid().as_raw();
    let other = uid.wrapping_add(1);
    let table = format!("other:x:{other}:0:::/bin/other\nme:x:{uid}:0:::/bin/mine\n");
    assert_eq!(current_user_login_shell(Some(&table)), Some("/bin/mine".to_owned()));
    let none: Vec<(String, String)> = Vec::new();
    let sources = ShellSources {
        session_option: None,
        global_option: None,
        environment: &none,
        passwd: Some(&table),
    };
    assert_eq!(shell_resolver::resolve_shell_path(&sources), "/bin/mine");
}

#[test]
fn arguments_are_quoted_where_they_must_be() {
    assert_eq!(quote_arg(""), r#""""#);
    assert_eq!(quote_arg(r"C:\plain\"), r"C:\plain\");
    assert_eq!(quote_arg("two words"), r#""two words""#);
    assert_eq!(quote_arg(r"C:\two words\"), r#""C:\two words\\""#);
    assert_eq!(quote_arg(r#"say "hi""#), r#""say \"hi\"""#);
    assert_eq!(quote_arg(r#"a\\"b c"#), r#""a\\\\\"b c""#);
    assert_eq!(quote_arg("tab\there"), "\"tab\there\"");
}

fn child(args: &[&str], env: &[(&str, &str)], clear_env: bool) -> ChildCommand {
    ChildCommand {
        program: r"C:\bin\tool.exe".to_owned(),
        arg0: None,
        args: args.iter().map(|arg| arg.to_string()).collect(),
        env: pairs(env),
        clear_env,
        current_dir: None,
    }
}

fn units(text: &str) -> Vec<u16> {
    text.encode_utf16().collect()
}

#[test]
fn a_command_line_holds_the_quoted_words() {
    let mut command = child(&["one", "two words"], &[], false);
    assert_eq!(
        command_line(&command),
        units("C:\\bin\\tool.exe one \"two words\"\0")
    );
    command.arg0 = Some("tool".to_owned());
    assert_eq!(command_line(&command), units("tool one \"two words\"\0"));
}

#[test]
fn texts_are_encoded_with_surrogates() {
    assert_eq!(wide_null("a😀"), units("a😀\0"));
    assert_eq!(wide_null(""), vec![0]);
}

#[test]
fn an_environment_block_is_sorted_and_overridden() {
    let inherited = pairs(&[("B", "old"), ("A", "1")]);
    let command = child(&[], &[("B", "new"), ("C", "")], false);
    assert_eq!(
        environment_block(&command, &inherited),
        Some(units("A=1\0B=new\0C=\0\0"))
    );
    let cleared = child(&[], &[("Z", "1"), ("Z", "2")], true);
    assert_eq!(environment_block(&cleared, &inherited), Some(units("Z=2\0\0")));
    assert_eq!(environment_block(&child(&[], &[], false), &inherited), None);
    assert_eq!(environment_block(&child(&[], &[], true), &inherited), Some(vec![0]));
}

#[test]
fn signals_end_the_job_or_the_process() {
    assert_eq!(kill_child(Signal::INT, true), KillAction::TypeInterrupt);
    assert_eq!(kill_child(Signal::TERM, true), KillAction::TerminateJob);
    assert_eq!(kill_child(Signal::HUP, false), KillAction::TerminateProcess);
    assert_eq!(kill_child(Signal::KILL, false), KillAction::TerminateProcess);
    assert_eq!(interrupt_child(), b"\x03");
}

#[test]
fn waits_are_told_apart() {
    assert_eq!(try_wait_child(WAIT_OBJECT_0), WaitVerdict::Ended);
    assert_eq!(try_wait_child(WAIT_TIMEOUT), WaitVerdict::Running);
    assert_eq!(try_wait_child(WAIT_FAILED), WaitVerdict::SystemError);
    match try_wait_child(128) {
        WaitVerdict::Unexpected(failure) => {
            assert_eq!(failure.message, "unexpected process wait result");
        }
        other => panic!("expected an odd answer, got {other:?}"),
    }
    assert_eq!(wait_child(WAIT_FAILED), WaitVerdict::SystemError);
    assert_eq!(wait_child(WAIT_OBJECT_0), WaitVerdict::Ended);
}

#[test]
fn a_child_that_cannot_run_does_not_stay() {
    let mut stage = SpawnStage::MakeJob;
    let mut count = 0;
    loop {
        count += 1;
        match spawn_child(stage, true) {
            SpawnStep::Go(next) => stage = next,
            SpawnStep::Running => break,
            other => panic!("expected to go on, got {other:?}"),
        }
    }
    assert_eq!(count, 6);
    assert_eq!(spawn_child(SpawnStage::AssignJob, false), SpawnStep::TerminateAndFail);
    assert_eq!(spawn_child(SpawnStage::Resume, false), SpawnStep::TerminateAndFail);
    assert_eq!(spawn_child(SpawnStage::CreateProcess, false), SpawnStep::Fail);
}

#[test]
fn attributes_take_whole_words() {
    assert_eq!(attribute_words(0, 8), None);
    assert_eq!(attribute_words(1, 8), Some(1));
    assert_eq!(attribute_words(48, 8), Some(6));
    assert_eq!(attribute_words(49, 8), Some(7));
}

#[test]
fn paths_have_prefixes() {
    let length = |path: &str| prefix_length(&path.chars().collect());
    assert_eq!(length(r"C:\a"), 2);
    assert_eq!(length(r"\a"), 0);
    assert_eq!(length(r"\\server\share\a"), r"\\server\share".len());
    assert_eq!(length("//server/share/a"), "//server/share".len());
    assert_eq!(length(r"\\server"), 0);
    assert_eq!(length(r"\\.\COM1\a"), r"\\.\COM1".len());
    assert_eq!(length(r"\\?\C:\a"), r"\\?\C:".len());
    assert_eq!(length(r"\\?\C:a\b"), r"\\?\C:a".len());
    assert_eq!(length(r"\\?\UNC\server\share\a"), r"\\?\UNC\server\share".len());
    assert_eq!(length("//?/C:/a"), "//?/C:".len());
}

#[test]
fn paths_are_joined_as_the_system_reads_them() {
    assert_eq!(join_path(r"C:\a", "b"), r"C:\a\b");
    assert_eq!(join_path(r"C:\a/", "b"), r"C:\a/b");
    assert_eq!(join_path("C:", "b"), "C:b");
    assert_eq!(join_path("", "b"), "b");
    assert_eq!(join_path(r"C:\a", r"D:b"), r"D:b");
    assert_eq!(join_path(r"C:\a", r"\b"), r"C:\b");
    assert_eq!(join_path(r"\\server\share\a", "/b"), r"\\server\share/b");
    assert_eq!(join_path(r"a\b", r"\c"), r"\c");
    assert_eq!(join_path(r"C:\a", r"\\server\share\b"), r"\\server\share\b");
    assert_eq!(join_path(r"\\?\C:\a\\b", r".\c/..\d"), r"\\?\C:\a\b\d");
    assert_eq!(join_path(r"\\?\C:\a", r"\b"), r"\\?\C:\b");
    assert_eq!(join_path(r"\\?\C:\a", r".."), r"\\?\C:\");
    assert_eq!(join_path(r"\\?\C:\a\.", r".."), r"\\?\C:\a\.");
}

#[test]
fn the_name_of_a_file_stands_behind_its_prefix() {
    assert_eq!(file_name(r"C:a"), Some("a".to_owned()));
    assert_eq!(file_name(r"C:\a\."), Some("a".to_owned()));
    assert_eq!(file_name(r"\\server\share"), None);
    assert_eq!(file_name(r"\\?\C:\a\."), None);
    assert_eq!(file_name(r"a\.."), None);
}

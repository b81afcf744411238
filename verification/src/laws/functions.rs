//! Laws of the functions behind starts, paths, shells, links and lists.
use vstd::prelude::*;

use crate::laws::links::{
    law_group_follows, law_position_joins_a_group, law_position_leaves_its_group,
};
use crate::laws::server::is_pipe;
use crate::laws::targets::{pane_in_session, pane_in_window};
use crate::names::{
    ErrorView, OptionScopeSelector, PaneTarget, ProtoError, ScopeSelector, SessionName, Target,
    TargetView, WindowTarget,
};
use crate::options::{
    apply_array_mutation, assigned, validate_query_mutation, OptionEntry, OptionMetadata,
    OptionQuery, OptionValueType, Reading, SetOptionMode,
};
use crate::passthrough::{append_cursor_position, PaneGeometry, TerminalPassthrough};
use crate::paths::{
    file_name, has_drive, is_lone_name, is_verbatim, join_path, last_component, lone_name,
};
use crate::process::executable_name;
use crate::protocol::{Request, Response};
use crate::response::PaneSnapshotCell;
use crate::session::Session;
use crate::shell_resolver::{
    default_shell_path, normalize_shell_path, passwd_shell_for_uid, resolve_program_path,
    resolve_shell_path_of, ShellSources,
};
use crate::size::{from_winsize, into_winsize, TerminalSize, Winsize};
use crate::snapshot::{blank_cell, collect_cells, pane_id_for_target, Screen};
use crate::startup::{
    classify_connect_error, classify_io_error, probe_blocking, startup_mutex_name,
    validate_pipe_name, IoFailure, ProbeEvent, ProbeStep, Startup, StartupAction, StartupError,
    StartupEvent, StartupOutcome,
};
use crate::state::HandlerState;
use crate::targets::{
    active_session_target, active_window_target, fallback_current_target,
    target_for_option_scope, target_for_request_response, target_for_scope_selector,
};
use crate::text;
use crate::window_movement::Change;
use crate::windows_runtime::{log_connection_task_result, TaskEnd};
use crate::xtask;

verus! {

/// A pipe name is good where it begins with the place of pipes and has a label; its
/// lock is named after the label in small letters.
pub proof fn law_good_pipes(
    name: &str,
    r: Result<(), StartupError>,
    lock: Result<String, StartupError>,
)
    requires
        call_ensures(validate_pipe_name, (name,), r),
        call_ensures(startup_mutex_name, (name,), lock),
    ensures
        r is Ok <==> is_pipe(name@) && last_component(name@.skip(9)) is Some,
        lock matches Ok(found) ==> is_pipe(name@) && found@ == "Local\\rmux-startup-"@
            + text::lowercase(name@.skip(9)) && text::bytes(found@).len() <= 260,
        !is_pipe(name@) ==> r is Err && lock is Err,
{
    crate::laws::server::law_pipe_names(name@);
    crate::laws::server::law_mutex_names(name@);
}

/// A pipe that is gone is no error, one that is busy or denied is.
pub proof fn law_judged_failures(
    error: IoFailure,
    name: &str,
    opened: Result<(), StartupError>,
    operation: &'static str,
    used: Result<(), StartupError>,
)
    requires
        call_ensures(classify_connect_error, (error, name), opened),
        call_ensures(classify_io_error, (error, operation, name), used),
    ensures
        error.code == Some(2i32) ==> opened is Ok && used is Ok,
        error.code == Some(232i32) || error.code == Some(233i32) ==> opened is Ok && used is Ok,
        error.code == Some(109i32) ==> used is Ok,
        error.code == Some(231i32) ==> opened is Err && opened->Err_0 is PipeBusy,
        error.code == Some(5i32) ==> opened is Err && opened->Err_0 is PipeAccessDenied
            && used is Err && used->Err_0 is PipeAccessDenied,
        error.code is None && error.kind is Other ==> opened is Err && opened->Err_0 is PipeIo
            && used is Err && used->Err_0 is PipeIo,
{
}

/// A step of a start: a server that answers is joined before the launch and started
/// after it; nothing else of the start changes.
pub proof fn law_starts_advance<S>(
    start: &mut Startup,
    stream: S,
    elapsed: u64,
    r: StartupAction<S>,
)
    requires
        call_ensures(
            Startup::advance::<S>,
            (start, StartupEvent::Probed(Ok::<Option<S>, StartupError>(Some(stream))), elapsed),
            r,
        ),
    ensures
        final(start).phase is Finished,
        old(start).phase is Probing || old(start).phase is Reprobing ==> r
            == StartupAction::Finish(
            Ok::<StartupOutcome<S>, StartupError>(StartupOutcome::JoinedExisting(stream)),
        ),
        old(start).phase is Waiting ==> r == StartupAction::Finish(
            Ok::<StartupOutcome<S>, StartupError>(StartupOutcome::Started(stream)),
        ),
        final(start).pipe_name == old(start).pipe_name,
        final(start).deadline == old(start).deadline && final(start).poll == old(start).poll,
{
}

/// A path joined to a directory, a name on its own, and the name of a file.
pub proof fn law_joined_text(
    directory: &str,
    path: &str,
    r: String,
    lone: bool,
    name: Option<String>,
)
    requires
        !is_verbatim(directory@),
        path@.len() > 0,
        path@[0] != '/' && path@[0] != '\\',
        call_ensures(join_path, (directory, path), r),
        call_ensures(is_lone_name, (path,), lone),
        call_ensures(file_name, (path,), name),
    ensures
        has_drive(path@) ==> r@ == path@,
        (!has_drive(path@) && directory@.len() > 2 && directory@.last() != '/' && directory@.last()
            != '\\') ==> r@ == directory@ + seq!['\\'] + path@,
        (!has_drive(path@) && directory@.len() > 0 && (directory@.last() == '/'
            || directory@.last() == '\\')) ==> r@ == directory@ + path@,
        lone <==> lone_name(path@) is Some,
        name.deep_view() == crate::paths::file_name_of(path@),
{
    crate::laws::children::law_joined_paths(directory@, path@);
}

/// The name of a program behind its directories and dashes.
pub proof fn law_executables(
    path: &str,
    front: Seq<char>,
    dashes: Seq<char>,
    name: Seq<char>,
    r: Option<String>,
)
    requires
        path@ == front + (dashes + name),
        front.len() == 0 || front.last() == '/',
        forall|i: int| 0 <= i < dashes.len() ==> #[trigger] dashes[i] == '-',
        !name.contains('/'),
        name.len() > 0 && name[0] != '-' && name[0] != '.',
        call_ensures(executable_name, (path,), r),
    ensures
        r is Some && r->0@ == name,
{
    crate::laws::commands::law_program_names(front, dashes, name);
    assert(seq!['.'][0] == '.');
    assert(seq!['.', '.'][0] == '.');
    assert(r.deep_view() == Some(name));
    if let Some(found) = r {
        assert(r.deep_view() == Some(found@));
    }
}

/// The shell of a user: that of the option where it is not empty, and of the account
/// line where it is that of the user.
pub proof fn law_found_shells(
    sources: &ShellSources<'_>,
    uid: u32,
    r: String,
    line: &str,
    shell: Option<String>,
)
    requires
        call_ensures(resolve_shell_path_of, (sources, uid), r),
        call_ensures(passwd_shell_for_uid, (line, uid), shell),
    ensures
        r@.len() > 0,
        (sources.session_option matches Some(own) && own@.len() > 0) ==> r@
            == sources.session_option->0@,
        (sources.session_option is None && sources.global_option is Some
            && sources.global_option->0@.len() > 0) ==> r@ == sources.global_option->0@,
        shell.deep_view() == crate::shell_resolver::line_shell(line@, uid),
{
    crate::laws::children::law_shells(*sources, uid);
    crate::shell_resolver::law_shell_is_named(*sources, uid);
}

/// A position that is unlinked is linked no longer, and one that is linked to another
/// is in its group.
pub proof fn law_linked_positions(
    state: &mut HandlerState,
    name: &SessionName,
    index: u32,
    count: usize,
    other: &mut HandlerState,
    from: &SessionName,
    i: u32,
    to: &SessionName,
    j: u32,
)
    requires
        old(state)@.links_wf(),
        old(other)@.links_wf(),
        old(other)@.next_link_group < u64::MAX,
        (from@, i) != (to@, j),
        call_ensures(HandlerState::detach_window_link_slot, (state, name, index), count),
        call_ensures(HandlerState::attach_window_link_slot, (other, from, i, to, j), ()),
    ensures
        !final(state)@.link_slots.contains_key((name@, index)),
        final(state)@.sessions == old(state)@.sessions,
        count >= 1,
        final(other)@.link_slots.contains_key((from@, i)),
        final(other)@.link_slots.contains_key((to@, j)),
        final(other)@.link_slots[(from@, i)] == final(other)@.link_slots[(to@, j)],
        final(other)@.sessions == old(other)@.sessions,
{
    law_position_leaves_its_group(old(state)@, (name@, index));
    law_position_joins_a_group(old(other)@, (from@, i), (to@, j));
}

/// A session that is followed by its group is shown by all of it.
pub proof fn law_followed_sessions(
    state: &mut HandlerState,
    name: &SessionName,
    r: Result<(), ProtoError>,
    other: Seq<char>,
    alike: bool,
    seen: &HandlerState,
    second: &SessionName,
)
    requires
        call_ensures(HandlerState::synchronize_session_group_from, (state, name), r),
        call_ensures(HandlerState::in_one_group, (seen, name, second), alike),
    ensures
        r is Ok <==> old(state)@.sessions.contains_key(name@),
        r is Err ==> final(state)@ == old(state)@,
        r is Ok ==> final(state)@.sessions[name@] == old(state)@.sessions[name@],
        (r is Ok && old(state)@.sessions.contains_key(other) && old(state)@.groups.contains_key(
            other,
        ) && old(state)@.groups.contains_key(name@) && old(state)@.groups[other]
            == old(state)@.groups[name@]) ==> final(state)@.sessions[other].windows
            == old(state)@.sessions[name@].windows,
        alike <==> seen@.groups.contains_key(name@) && seen@.groups.contains_key(second@)
            && seen@.groups[name@] == seen@.groups[second@],
{
    law_group_follows(old(state)@, name@);
}

/// The cells of a screen from a line on, row by row, and a blank cell.
pub proof fn law_collected_cells(
    screen: &Screen,
    cols: u16,
    rows: u16,
    from: usize,
    r: Result<Vec<PaneSnapshotCell>, ProtoError>,
    blank: PaneSnapshotCell,
    row: int,
    col: int,
)
    requires
        call_ensures(collect_cells, (screen, cols, rows, from), r),
        call_ensures(blank_cell, (), blank),
        0 <= row < rows,
        0 <= col < cols,
    ensures
        r is Ok,
        r->Ok_0@.len() == rows * cols,
        0 <= row * cols + col < rows * cols,
        (from + row < screen.lines@.len() && col < screen.lines@[from + row]@.len())
            ==> r->Ok_0@[row * cols + col]@ == screen.lines@[from + row]@[col]@,
        !(from + row < screen.lines@.len() && col < screen.lines@[from + row]@.len())
            ==> r->Ok_0@[row * cols + col]@ == blank@,
        blank.text@ == " "@ && blank.width == 1 && !blank.padding && blank.attributes == 0,
        blank.fg == 8 && blank.bg == 8 && blank.us == 8 && blank.link == 0,
{
    crate::snapshot::law_capture_is_rectangular(*screen, from as int, rows as nat, cols as nat);
    let all = r->Ok_0.deep_view();
    assert(screen.shown(from as int, row, col) == all[row * cols + col]);
    assert(0 <= row * cols + col < rows * cols) by (nonlinear_arith)
        requires
            0 <= row < rows,
            0 <= col < cols,
    ;
    assert(all[row * cols + col] == r->Ok_0@[row * cols + col]@);
}

/// What is current: the active pane of a session or a window, what the answer names,
/// and else what there is.
pub proof fn law_current_targets(
    state: &HandlerState,
    name: &SessionName,
    pane: Option<Target>,
    window: &WindowTarget,
    shown: Option<Target>,
    request: &Request,
    response: &Response,
    attached: Option<&SessionName>,
    current: Option<Target>,
    fallen: Option<Target>,
)
    requires
        call_ensures(active_session_target, (state, name), pane),
        call_ensures(active_window_target, (state, window), shown),
        call_ensures(target_for_request_response, (state, request, response, attached), current),
        call_ensures(fallback_current_target, (state, attached), fallen),
    ensures
        pane.deep_view() == pane_in_session(state@, name@),
        shown.deep_view() == pane_in_window(state@, window@.0, window@.1),
        *response matches Response::SelectWindow(answer) ==> current.deep_view()
            == pane_in_window(state@, answer.target@.0, answer.target@.1),
        *response matches Response::SplitWindow(answer) ==> current.deep_view() == Some(
            TargetView::Pane(answer.pane@),
        ),
        *response matches Response::NewSession(answer) ==> current.deep_view()
            == pane_in_session(state@, answer.session_name@),
        (attached is Some && pane_in_session(state@, attached->0@) is Some) ==> fallen.deep_view()
            == pane_in_session(state@, attached->0@),
{
    crate::laws::targets::law_answers_name_the_current_target(
        state@,
        *request,
        *response,
        attached.deep_view(),
    );
    crate::laws::targets::law_fallback(state@, attached.deep_view(), Seq::empty());
    if let Some(own) = attached {
        assert(attached.deep_view() == Some(own@));
    }
}

/// The pane of a place, for a capture.
pub proof fn law_found_panes(
    state: &HandlerState,
    target: &PaneTarget,
    r: Result<u32, ProtoError>,
    i: int,
)
    requires
        call_ensures(pane_id_for_target, (state, target), r),
    ensures
        !state@.sessions.contains_key(target@.0) ==> r is Err && r->Err_0@
            == ErrorView::SessionNotFound(target@.0),
        ({
            let (name, window, index) = target@;
            let panes = state@.sessions[name].windows[window].panes;
            (state@.sessions.contains_key(name) && state@.sessions[name].windows.contains_key(
                window,
            ) && 0 <= i < panes.len() && panes[i].index == index && forall|j: int|
                0 <= j < i ==> (#[trigger] panes[j]).index != index) ==> r == Ok::<
                u32,
                ProtoError,
            >(panes[i].id)
        }),
{
    crate::laws::panes::law_pane_of_a_place(state@, target@, i);
}

/// A change is refused at a scope that the option does not have.
pub proof fn law_refused_scopes(
    query: &OptionQuery,
    scope: &OptionScopeSelector,
    mode: SetOptionMode,
    value: Option<&str>,
    unset: bool,
    reading: &Reading,
    r: Result<(), ProtoError>,
    id: u32,
    mask: u8,
)
    requires
        query.known == Some((id, mask)),
        call_ensures(validate_query_mutation, (query, scope, mode, value, unset, reading), r),
    ensures
        mask & crate::laws::options::bit_of(*scope) == 0 ==> r is Err,
        (mask & crate::laws::options::bit_of(*scope) != 0 && mode == SetOptionMode::Replace
            && unset) ==> r is Ok,
{
    if mask & crate::laws::options::bit_of(*scope) == 0 {
        crate::laws::options::law_scopes(
            *query,
            *scope,
            mode,
            value.deep_view(),
            unset,
            reading@,
            id,
            mask,
            1,
            2,
        );
    } else {
        crate::laws::options::law_changes_are_accepted(
            *query,
            *scope,
            mode,
            value.deep_view(),
            unset,
            reading@,
        );
    }
}

/// A list that is replaced holds its new values from place zero on, and nothing else.
pub proof fn law_replaced_lists(
    entry: &mut OptionEntry,
    query: &OptionQuery,
    value: &str,
    current: Option<&str>,
    readings: &Vec<Reading>,
    r: Result<(), ProtoError>,
    k: u32,
)
    requires
        query.index is None,
        assigned(value@, query.separator@).len() <= u32::MAX,
        call_ensures(
            apply_array_mutation,
            (entry, query, value, SetOptionMode::Replace, current, readings),
            r,
        ),
    ensures
        r is Ok ==> (final(entry)@.contains_key(k) <==> k < assigned(
            value@,
            query.separator@,
        ).len()),
        final(entry)@.contains_key(k) ==> query.scalar_value(
            Some(assigned(value@, query.separator@)[k as int]),
            None,
            readings.deep_view()[k as int],
        ) == Ok::<crate::options::ValueView, ErrorView>(final(entry)@[k]),
{
    crate::laws::options::law_new_lists_count_from_zero(
        *query,
        assigned(value@, query.separator@),
        readings.deep_view(),
    );
}

/// Renumbered windows stand from index zero on.
pub proof fn law_renumbered_sessions(session: &mut Session, k: u32)
    requires
        call_ensures(Session::reindex_windows, (session,), ()),
        final(session)@.windows.contains_key(k),
        k > 0,
    ensures
        final(session)@.windows.contains_key((k - 1) as u32),
        final(session)@.windows.contains_key(0),
        final(session)@.name == old(session)@.name && final(session)@.id == old(session)@.id,
{
}

/// The size of a terminal goes to the system and comes back, rows as rows and columns
/// as columns; what is said of connections.
pub proof fn law_sizes_survive(
    size: TerminalSize,
    r: Winsize,
    back: TerminalSize,
    end: &TaskEnd,
    said: Option<String>,
)
    requires
        call_ensures(into_winsize, (size,), r),
        call_ensures(from_winsize, (r,), back),
        call_ensures(log_connection_task_result, (end,), said),
    ensures
        r.ws_row == size.rows && r.ws_col == size.cols,
        r.ws_xpixel == 0 && r.ws_ypixel == 0,
        back == size,
        said is None <==> *end is Finished,
{
    assert(said.deep_view() is None <==> said is None);
}

/// What is asked about a known option is what is known of it.
pub proof fn law_known_options(option: &OptionMetadata, r: OptionQuery)
    requires
        call_ensures(OptionQuery::known, (option,), r),
    ensures
        r.canonical_name@ == option.name@,
        r.known == Some((option.id, option.scope_mask)),
        r.is_array == option.is_array && r.index is None,
        r.separator@ == option.separator@ && r.effects == option.effects,
        r.value_type is Flag <==> option.value_type is Flag,
        r.value_type is String <==> option.value_type is String,
        r.value_type matches OptionValueType::Number { minimum } ==> option.value_type
            == (OptionValueType::Number { minimum }),
        (r.value_type matches OptionValueType::Choice(words)
            && option.value_type matches OptionValueType::Choice(own))
            ==> r.value_type->Choice_0.deep_view() == option.value_type->Choice_0.deep_view(),
{
}

/// Without any wish the shell is the usual one; a path and a program are taken as they
/// are named.
pub proof fn law_usual_shells(
    usual: String,
    path: String,
    same: String,
    program: &str,
    environment: &Vec<(String, String)>,
    found: String,
)
    requires
        call_ensures(default_shell_path, (), usual),
        call_ensures(normalize_shell_path, (path,), same),
        call_ensures(resolve_program_path, (program, environment), found),
    ensures
        usual@ == "/bin/sh"@,
        same@ == path@,
        found@ == program@,
{
}

/// The arguments of the task runner, as they are given.
pub proof fn law_parsed_arguments(args: &Vec<String>, r: Result<xtask::Command, String>)
    requires
        call_ensures(xtask::parse_args, (args,), r),
    ensures
        args@.len() == 0 ==> r is Ok && r->Ok_0 is Help,
        (args@.len() == 1 && args@[0]@ == "--help"@) ==> r is Ok && r->Ok_0 is Help,
        (args@.len() > 1 && args@[0]@ == "--help"@) ==> r is Err,
        (args@.len() == 1 && args@[0]@ == "feature-inventory"@) ==> r is Ok && r->Ok_0 == (
        xtask::Command::FeatureInventory { check: false }),
{
    let words = args.deep_view();
    assert(words.len() == args@.len());
    if args@.len() > 0 {
        assert(words[0] == args@[0]@);
        let rest = words.skip(1);
        assert(words =~= seq![words[0]] + rest);
        if args@.len() > 1 {
            let more = words.skip(2);
            assert(words =~= seq![words[0], words[1]] + more);
            crate::laws::commands::law_task_arguments(words[0], words[1], more);
        } else {
            assert(words =~= seq![words[0]]);
            crate::laws::commands::law_task_arguments(words[0], words[0], rest);
        }
    } else {
        assert(words =~= Seq::empty());
        crate::laws::commands::law_task_arguments(Seq::empty(), Seq::empty(), Seq::empty());
    }
}

/// A change that is taken back gives the state that it says.
pub proof fn law_undone_changes(state: &mut HandlerState, change: Change)
    requires
        change.wf(),
        change is Session,
        call_ensures(HandlerState::undo, (state, change), ()),
    ensures
        final(state)@.sessions[change->Session_name@] == change->Session_previous@,
        final(state)@.terminals == old(state)@.terminals,
        final(state)@.groups == old(state)@.groups,
{
}

/// What is current at a scope, and where a cursor is put.
pub proof fn law_scope_targets(
    state: &HandlerState,
    scope: &ScopeSelector,
    r: Option<Target>,
    option: &OptionScopeSelector,
    found: Option<Target>,
    frame: &mut Vec<u8>,
    geometry: PaneGeometry,
    passthrough: &TerminalPassthrough,
)
    requires
        call_ensures(target_for_scope_selector, (state, scope), r),
        call_ensures(target_for_option_scope, (state, option), found),
        call_ensures(append_cursor_position, (frame, geometry, passthrough), ()),
    ensures
        *scope is Global ==> r is None,
        *scope matches ScopeSelector::Session(name) ==> r.deep_view() == pane_in_session(
            state@,
            name@,
        ),
        *scope matches ScopeSelector::Window(window) ==> r.deep_view() == pane_in_window(
            state@,
            window@.0,
            window@.1,
        ),
        *scope matches ScopeSelector::Pane(pane) ==> r.deep_view() == Some(
            TargetView::Pane(pane@),
        ),
        *option matches OptionScopeSelector::Session(name) ==> found.deep_view()
            == pane_in_session(state@, name@),
        *option matches OptionScopeSelector::Window(window) ==> found.deep_view()
            == pane_in_window(state@, window@.0, window@.1),
        *option matches OptionScopeSelector::Pane(pane) ==> found.deep_view() == Some(
            TargetView::Pane(pane@),
        ),
        final(frame)@ == old(frame)@ + text::bytes(
            crate::passthrough::cursor_text(geometry, *passthrough),
        ),
{
    assert(r.deep_view() is None <==> r is None);
}

/// A probe of a pipe ends with an answer only where a session was asked about and told.
pub proof fn law_probes(event: ProbeEvent, name: &str, r: ProbeStep)
    requires
        call_ensures(probe_blocking, (event, name), r),
    ensures
        r is Responsive <==> (event matches ProbeEvent::Decoded(frame) && frame is HasSession),
        (event matches ProbeEvent::Opened(opened) && opened is Ok) ==> r is SetWriteTimeout,
        (event matches ProbeEvent::WriteTimeoutSet(set) && set is Ok) ==> r is SetReadTimeout,
        (event matches ProbeEvent::ReadTimeoutSet(set) && set is Ok) ==> r is Encode,
        (event matches ProbeEvent::Encoded(done) && done is Ok) ==> r is Send,
        (event matches ProbeEvent::Sent(done) && done is Ok) ==> r is Read,
        (event matches ProbeEvent::Decoded(frame) && frame is Incomplete) ==> r is Read,
        (event matches ProbeEvent::Decoded(frame) && frame is Malformed) ==> r is Silent,
{
}

} // verus!

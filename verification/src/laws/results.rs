//! Laws of what the smaller functions of the library return.
use std::collections::VecDeque;

use vstd::prelude::*;

use crate::cli::{
    command_has_start_server_flag, is_unsupported_named_layout, looks_like_custom_layout, Command,
};
use crate::client::{output_needs_suffix, write_initial_commands, Connection, PendingUpgrade};
use crate::error::RmuxError;
use crate::input::{attach_input_chunks, AttachInputChunks};
use crate::laws::texts::{
    blank, law_decimal, law_numbers_are_read, law_prefix, law_trimmed_between_white_space,
    stands_at, tight,
};
use crate::laws::windows::panes_of;
use crate::names::{OptionScopeSelector, PaneTarget, ProtoError, SessionName, Target, WindowTarget};
use crate::options::{is_global_scope, normalize_key, split_array_assignment, OptionEffects};
use crate::protocol::{
    ClientTerminalContext, ControlMode, IfShellRequest, LayoutName, Request, RunShellRequest,
};
use crate::queue::{remove_group_contexts, QueueExecutionContext};
use crate::session::Session;
use crate::shell::{
    expand_if_shell_condition, expand_run_shell_command, run_shell_wait, Rendering,
};
use crate::source::{
    config_loading_active, enter_config_load, leave_config_load, parse_source_input,
    render_source_file_path, source_file_context, ParseRequest, ParsedSourceFileCommand,
    SourceInput,
};
use crate::spawn::{interrupt_child, wide, wide_null};
use crate::startup::{
    probe_responsive, StartupError, StartupErrorView, StartupMutexHolder, StartupOutcome,
};
use crate::state::HandlerState;
use crate::streams::{
    is_subscription_gone, open_request, PaneLineStream, PaneOutputStart, PaneOutputStream,
};
use crate::text;
use crate::window_movement::Step;

verus! {

/// A window whose name is automatic is known by the session that runs its panes and by
/// its index: marking it makes it known, clearing it makes it unknown, and no other
/// window is touched by either.
pub proof fn law_automatic_names(
    state: &mut HandlerState,
    name: &SessionName,
    index: u32,
    other: &mut HandlerState,
    seen: &HandlerState,
    known: bool,
    key: (Seq<char>, u32),
)
    requires
        call_ensures(HandlerState::mark_auto_named_window, (state, name, index), ()),
        call_ensures(HandlerState::clear_auto_named_window, (other, name, index), ()),
        call_ensures(HandlerState::tracks_auto_named_window, (seen, name, index), known),
    ensures
        known <==> seen@.auto_named.contains((panes_of(seen@, name@), index)),
        final(state)@.auto_named.contains((panes_of(old(state)@, name@), index)),
        key != (panes_of(old(state)@, name@), index) ==> (final(state)@.auto_named.contains(key)
            <==> old(state)@.auto_named.contains(key)),
        !final(other)@.auto_named.contains((panes_of(old(other)@, name@), index)),
        key != (panes_of(old(other)@, name@), index) ==> (final(other)@.auto_named.contains(key)
            <==> old(other)@.auto_named.contains(key)),
        final(state)@.sessions == old(state)@.sessions,
        final(other)@.sessions == old(other)@.sessions,
{
}

/// A server that was started is owned, and one that was joined is not; a lock is
/// released once; and a trial that could not be joined is an error.
pub proof fn law_owned_servers<S, R, T>(
    outcome: &StartupOutcome<S>,
    owner: bool,
    holder: &mut StartupMutexHolder<R, T>,
    released: (Option<R>, Option<T>),
    joined: Result<Result<Option<S>, StartupError>, String>,
    name: &str,
    probed: Result<Option<S>, StartupError>,
)
    requires
        call_ensures(StartupOutcome::<S>::is_owner, (outcome,), owner),
        call_ensures(StartupMutexHolder::<R, T>::release, (holder,), released),
        call_ensures(probe_responsive::<S>, (joined, name), probed),
    ensures
        owner <==> *outcome is Started,
        released.0 == old(holder).release && released.1 == old(holder).thread,
        final(holder).release is None && final(holder).thread is None,
        joined matches Ok(result) ==> probed == result,
        joined matches Err(error) ==> probed is Err && (
        probed->Err_0@ matches StartupErrorView::PipeIo(operation, pipe, source) && operation
            == "join probe task"@ && pipe == name@ && source.message
            == "startup probe join failed: "@ + error@),
{
}

/// What is typed to interrupt a child, and how a text is handed to the system.
pub proof fn law_typed_interrupt(typed: Vec<u8>, value: &str, units: Vec<u16>)
    requires
        call_ensures(interrupt_child, (), typed),
        call_ensures(wide_null, (value,), units),
    ensures
        typed@ == seq![3u8],
        units@ == wide(value@) + seq![0u16],
{
    assert(wide(value@).push(0) =~= wide(value@) + seq![0u16]);
}

/// Output is asked for from now on or from the oldest, of the pane that is meant; the
/// end of a subscription is asked for once; and lines begin with nothing.
pub proof fn law_subscriptions(
    target: PaneTarget,
    start: PaneOutputStart,
    asked: Request,
    stream: &mut PaneOutputStream,
    end: Option<Request>,
    inner: PaneOutputStream,
    lines: PaneLineStream,
    error: &RmuxError,
    gone: bool,
)
    requires
        call_ensures(open_request, (target, start), asked),
        call_ensures(PaneOutputStream::unsubscribe_request, (stream,), end),
        call_ensures(PaneLineStream::wrap, (inner,), lines),
        call_ensures(is_subscription_gone, (error,), gone),
    ensures
        asked matches Request::SubscribePaneOutput(request) && request.target == target && (
        request.start is Now <==> start is Now) && (request.start is Oldest <==> start is Oldest),
        end is Some <==> !old(stream)@.ended,
        end matches Some(request) ==> (request matches Request::UnsubscribePaneOutput(ended)
            && ended.subscription_id == old(stream)@.subscription_id),
        final(stream)@.ended,
        final(stream)@.pending == old(stream)@.pending,
        lines@.inner == inner@,
        lines@.buffer.len() == 0 && lines@.pending.len() == 0,
        gone ==> *error is Protocol,
{
}

/// What a client sends goes behind what it has sent, with what it was given.
pub proof fn law_sent_requests(
    connection: &mut Connection,
    target: Option<Target>,
    print: bool,
    message: Option<String>,
    second: &mut Connection,
    jobs: bool,
    terminals: bool,
    client: Option<String>,
    third: Connection,
    mode: ControlMode,
    terminal: ClientTerminalContext,
    pending: PendingUpgrade,
    suffix: bool,
)
    requires
        call_ensures(Connection::display_message, (connection, target, print, message), ()),
        call_ensures(Connection::show_messages, (second, jobs, terminals, client), ()),
        call_ensures(Connection::begin_control_mode, (third, mode, terminal), pending),
        call_ensures(output_needs_suffix, (mode,), suffix),
    ensures
        final(connection).sent@.drop_last() == old(connection).sent@,
        final(connection).sent@.last() matches Request::DisplayMessage(asked) && asked.target
            == target && asked.print == print && asked.message == message,
        final(second).sent@.drop_last() == old(second).sent@,
        final(second).sent@.last() matches Request::ShowMessages(asked) && asked.jobs == jobs
            && asked.terminals == terminals && asked.target_client == client,
        pending.sent@.drop_last() == third.sent@,
        pending.sent@.last() matches Request::ControlMode(asked) && asked.mode == mode
            && asked.client_terminal == terminal,
        suffix <==> mode is ControlControl,
{
    assert(final(connection).sent@.drop_last() =~= old(connection).sent@);
    assert(final(second).sent@.drop_last() =~= old(second).sent@);
    assert(pending.sent@.drop_last() =~= third.sent@);
}

/// A context begins with the directory of the caller and nothing else; what is set on
/// it later leaves the rest as it is.
pub proof fn law_contexts(
    cwd: Option<String>,
    fresh: QueueExecutionContext,
    bare: QueueExecutionContext,
    context: QueueExecutionContext,
    target: Option<Target>,
    aimed: QueueExecutionContext,
    pointed: QueueExecutionContext,
    this: &QueueExecutionContext,
    depth: usize,
    file: Option<String>,
    sourced: QueueExecutionContext,
)
    requires
        call_ensures(QueueExecutionContext::new, (cwd,), fresh),
        call_ensures(QueueExecutionContext::without_caller_cwd, (), bare),
        call_ensures(QueueExecutionContext::with_current_target, (context, target), aimed),
        call_ensures(QueueExecutionContext::with_mouse_target, (context, target), pointed),
        call_ensures(QueueExecutionContext::for_sourced_commands, (this, depth, file), sourced),
    ensures
        fresh.caller_cwd == cwd && bare.caller_cwd is None,
        fresh.source_file_depth == 0 && fresh.current_file is None && fresh.current_target is None
            && fresh.mouse_target is None,
        bare.source_file_depth == 0 && bare.current_file is None && bare.current_target is None
            && bare.mouse_target is None,
        aimed.current_target == target && aimed.mouse_target == context.mouse_target
            && aimed.caller_cwd == context.caller_cwd && aimed.current_file == context.current_file
            && aimed.source_file_depth == context.source_file_depth,
        pointed.mouse_target == target && pointed.current_target == context.current_target
            && pointed.caller_cwd == context.caller_cwd && pointed.current_file
            == context.current_file && pointed.source_file_depth == context.source_file_depth,
        sourced.source_file_depth == depth && sourced.current_file == file && sourced.caller_cwd
            == this.caller_cwd && sourced.current_target == this.current_target
            && sourced.mouse_target == this.mouse_target,
{
}

/// A group that leaves the queue takes its contexts with it: without items nothing is
/// left, and where no item is in the group nothing leaves.
pub proof fn law_contexts_leave_with_groups(
    groups: &Vec<u64>,
    contexts: &mut VecDeque<QueueExecutionContext>,
    group: u64,
)
    requires
        groups@.len() == old(contexts)@.len(),
        call_ensures(remove_group_contexts, (groups, contexts, group), ()),
    ensures
        (forall|i: int| 0 <= i < groups@.len() ==> #[trigger] groups@[i] != group)
            ==> final(contexts)@ == old(contexts)@,
        (forall|i: int| 0 <= i < groups@.len() ==> #[trigger] groups@[i] == group)
            ==> final(contexts)@.len() == 0,
{
    lemma_all_or_none(groups@, old(contexts)@, group);
}

/// Where all items are in a group none is left, and where none is all are.
proof fn lemma_all_or_none(groups: Seq<u64>, contexts: Seq<QueueExecutionContext>, group: u64)
    requires
        groups.len() == contexts.len(),
    ensures
        (forall|i: int| 0 <= i < groups.len() ==> #[trigger] groups[i] != group)
            ==> crate::queue::other_contexts(groups, contexts, group) == contexts,
        (forall|i: int| 0 <= i < groups.len() ==> #[trigger] groups[i] == group)
            ==> crate::queue::other_contexts(groups, contexts, group).len() == 0,
    decreases groups.len(),
{
    if groups.len() == 0 {
        assert(crate::queue::other_contexts(groups, contexts, group) =~= contexts);
    } else {
        let (rest, left) = (groups.skip(1), contexts.skip(1));
        lemma_all_or_none(rest, left, group);
        assert forall|i: int| 0 <= i < rest.len() implies rest[i] == groups[i + 1] by {}
        assert(seq![contexts[0]] + left =~= contexts);
    }
}

/// Files of the start are counted while they are read: entering and leaving give the
/// count back, and some are being read where the count is not zero.
pub proof fn law_startup_is_counted(depth: usize, entered: usize, left: usize, active: bool)
    requires
        call_ensures(enter_config_load, (depth,), entered),
        call_ensures(leave_config_load, (entered,), left),
        call_ensures(config_loading_active, (depth,), active),
    ensures
        depth < usize::MAX ==> entered == depth + 1,
        depth < usize::MAX ==> left == depth,
        active <==> depth != 0,
{
}

/// What a file of commands is run with, how its paths are filled in and how its
/// contents are read: with its directory, its target and its name.
pub proof fn law_file_contexts(
    command: &ParsedSourceFileCommand,
    context: QueueExecutionContext,
    input: &SourceInput,
    target: &Option<PaneTarget>,
    parse: ParseRequest,
    path: &String,
    file: &Option<String>,
    rendering: Rendering,
)
    requires
        call_ensures(source_file_context, (command,), context),
        call_ensures(parse_source_input, (input, target), parse),
        call_ensures(render_source_file_path, (path, target, file), rendering),
    ensures
        context.caller_cwd == command.caller_cwd && context.source_file_depth == 0
            && context.current_file is None && context.mouse_target is None,
        command.target matches Some(pane) ==> context.current_target == Some(Target::Pane(pane)),
        command.target is None ==> context.current_target is None,
        parse.contents == input.contents && parse.current_file == input.current_file,
        *target matches Some(pane) ==> parse.target == Some(Target::Pane(pane))
            && rendering.target == Some(Target::Pane(pane)),
        *target is None ==> parse.target is None && rendering.target is None,
        rendering.template == *path && rendering.current_file == *file,
{
}

/// What of a shell request is filled in, and how long it waits.
pub proof fn law_shell_texts(
    command: &String,
    target: &Option<PaneTarget>,
    run: Rendering,
    request: &RunShellRequest,
    wait: Option<u64>,
    asked: &IfShellRequest,
    condition: Rendering,
)
    requires
        call_ensures(expand_run_shell_command, (command, target), run),
        call_ensures(run_shell_wait, (request,), wait),
        call_ensures(expand_if_shell_condition, (asked,), condition),
    ensures
        run.template == *command && run.current_file is None,
        *target matches Some(pane) ==> run.target == Some(Target::Pane(pane)),
        *target is None ==> run.target is None,
        wait == request.delay_ms,
        condition.template == asked.condition && condition.target == asked.target
            && condition.current_file is None,
{
}

/// The commands that may start a server, and the layouts that are no names or that
/// cannot be asked for.
pub proof fn law_command_flags(
    command: &Command,
    starts: bool,
    layout: LayoutName,
    unsupported: bool,
    words: &str,
    custom: bool,
)
    requires
        call_ensures(command_has_start_server_flag, (command,), starts),
        call_ensures(is_unsupported_named_layout, (layout,), unsupported),
        call_ensures(looks_like_custom_layout, (words,), custom),
    ensures
        starts <==> *command is NewSession || *command is StartServer || *command is AttachSession
            || *command is SourceFile,
        unsupported <==> layout is MainHorizontalMirrored || layout is MainVerticalMirrored,
        custom <==> words@.contains(','),
{
}

/// The effects of an option, and the scopes that are global.
pub proof fn law_option_flags(
    effects: &OptionEffects,
    effect: u32,
    has: bool,
    empty: bool,
    scope: &OptionScopeSelector,
    global: bool,
)
    requires
        call_ensures(OptionEffects::contains, (effects, effect), has),
        call_ensures(OptionEffects::is_empty, (effects,), empty),
        call_ensures(is_global_scope, (scope,), global),
    ensures
        has <==> effects.bits & effect == effect,
        empty <==> effects.bits == 0,
        global <==> !(scope is Session || scope is Window || scope is Pane),
{
}

/// Trimming a text that stands between white space gives the text.
pub proof fn law_trim(
    s: &str,
    front: Seq<char>,
    word: Seq<char>,
    back: Seq<char>,
    r: String,
    low: String,
)
    requires
        s@ == front + word + back,
        blank(front),
        blank(back),
        tight(word),
        call_ensures(text::trim, (s,), r),
        call_ensures(text::to_lower, (s,), low),
    ensures
        r@ == word,
        low@.len() == s@.len(),
        forall|i: int|
            0 <= i < s@.len() ==> (#[trigger] low@[i]) as int == if 65 <= s@[i] as int <= 90 {
                s@[i] as int + 32
            } else {
                s@[i] as int
            },
{
    law_trimmed_between_white_space(front, word, back);
    crate::laws::texts::law_lowercase(s@);
}

/// Whether a text begins with another, and whether it stands anywhere in it.
pub proof fn law_search(
    s: &str,
    pat: &str,
    begins: bool,
    holds: bool,
    parts: Option<(String, String)>,
)
    requires
        call_ensures(text::starts_with, (s, pat), begins),
        call_ensures(text::contains, (s, pat), holds),
        call_ensures(text::split_once, (s, pat), parts),
    ensures
        begins <==> exists|rest: Seq<char>| s@ == #[trigger] (pat@ + rest),
        holds <==> exists|j: int| stands_at(s@, pat@, j),
        parts is Some <==> holds,
        parts matches Some((left, right)) ==> s@ == left@ + pat@ + right@,
{
    law_prefix(s@, pat@);
    crate::laws::texts::law_find(s@, pat@);
    crate::laws::texts::law_split_first(s@, pat@);
    if let Some(i) = text::find(s@, pat@) {
        assert(stands_at(s@, pat@, i));
    }
}

/// A number that is written and read is the same again.
pub proof fn law_numbers_survive(n: u32, written: String, s: &str, read: Option<u32>)
    requires
        call_ensures(text::decimal_of, (n as u64,), written),
        s@ == written@,
        call_ensures(text::parse_u32, (s,), read),
    ensures
        read == Some(n),
{
    law_decimal(n as nat);
    law_numbers_are_read(s@, n);
}

/// A text that is split and joined is the same again.
pub proof fn law_pieces_survive(s: &str, sep: &str, parts: Vec<String>, joined: String)
    requires
        sep@.len() > 0,
        call_ensures(text::split_on, (s, sep), parts),
        call_ensures(text::join, (&parts, sep), joined),
    ensures
        joined@ == s@,
        parts@.len() > 0,
{
    crate::laws::texts::law_split_and_joined(s@, sep@);
    assert(parts.deep_view().len() == parts@.len());
}

/// Of two texts the one comes first whose character is smaller at the first place at
/// which they differ, or that ends first; and texts are alike in any letters where
/// their small letters are.
pub proof fn law_precedes(a: &str, b: &str, first: bool, i: int, alike: bool)
    requires
        call_ensures(text::precedes, (a, b), first),
        call_ensures(text::eq_ignore_case, (a, b), alike),
    ensures
        (a@.len() <= b@.len() && a@ == b@.take(a@.len() as int)) ==> first,
        (0 <= i < a@.len() && i < b@.len() && a@.take(i) == b@.take(i) && a@[i] != b@[i]) ==> (first
            <==> a@[i] < b@[i]),
        (b@.len() < a@.len() && b@ == a@.take(b@.len() as int)) ==> !first,
        alike <==> text::lowercase(a@) == text::lowercase(b@),
{
    crate::laws::texts::law_order_of_texts(a@, b@);
}

/// Chunks of input come one after the other, and together they are the input.
pub proof fn law_input_comes_in_chunks<'a>(
    bytes: &'a [u8],
    chunks: AttachInputChunks<'a>,
    state: &mut AttachInputChunks<'a>,
    r: Option<&'a [u8]>,
)
    requires
        call_ensures(attach_input_chunks, (bytes,), chunks),
        call_ensures(AttachInputChunks::next, (state,), r),
    ensures
        crate::input::concatenated(chunks.coming()) == bytes@,
        r is Some <==> old(state).coming().len() > 0,
        r matches Some(chunk) ==> chunk@ == old(state).coming()[0] && final(state).coming()
            == old(state).coming().skip(1),
{
}

/// Windows of a session: two change places, one is chosen, one is removed.
pub proof fn law_session_windows(
    session: &mut Session,
    a: u32,
    b: u32,
    swapped: Result<(), ProtoError>,
    second: &mut Session,
    chosen: Result<(), ProtoError>,
    third: &mut Session,
    removed: Result<(), ProtoError>,
)
    requires
        call_ensures(Session::swap_windows, (session, a, b), swapped),
        call_ensures(Session::select_window, (second, a), chosen),
        call_ensures(Session::remove_window, (third, a), removed),
    ensures
        swapped is Ok <==> old(session)@.windows.contains_key(a)
            && old(session)@.windows.contains_key(b),
        swapped is Ok ==> final(session)@.windows[a] == old(session)@.windows[b]
            && final(session)@.windows[b] == old(session)@.windows[a]
            && final(session)@.active == old(session)@.active,
        swapped is Err ==> final(session)@ == old(session)@,
        chosen is Ok <==> old(second)@.windows.contains_key(a),
        chosen is Ok ==> final(second)@.active == a && final(second)@.windows
            == old(second)@.windows,
        removed is Ok ==> !final(third)@.windows.contains_key(a)
            && old(third)@.windows.contains_key(a) && old(third)@.windows.dom().len() != 1,
        removed is Err ==> final(third)@ == old(third)@,
{
}

/// Windows that changed places in the state of the server, and the sessions of a
/// group.
pub proof fn law_swapped_windows(
    state: &mut HandlerState,
    source: WindowTarget,
    target: WindowTarget,
    detached: bool,
    r: Step,
)
    requires
        call_ensures(HandlerState::swap_window, (state, source, target, detached), r),
        source@ != target@,
    ensures
        !(r is Applied) ==> final(state)@ == old(state)@,
        r is Applied ==> {
            let (a, i) = source@;
            let (b, j) = target@;
            &&& final(state)@.sessions[b].windows[j] == old(state)@.sessions[a].windows[i]
            &&& final(state)@.sessions[a].windows[i] == old(state)@.sessions[b].windows[j]
        },
{
    if old(state)@.swap_step(source@, target@, detached) is Applied {
        if source@.0 == target@.0 {
            crate::laws::windows::law_windows_of_a_session_change_places(
                old(state)@,
                source@,
                target@,
                detached,
            );
        } else {
            crate::laws::windows::law_windows_of_two_sessions_change_places(
                old(state)@,
                source@,
                target@,
                detached,
            );
        }
    }
}

/// The members of the group of a session are the sessions with the same group.
pub proof fn law_group_members(
    state: &HandlerState,
    name: &SessionName,
    members: Vec<SessionName>,
    other: Seq<char>,
    runtime: SessionName,
)
    requires
        call_ensures(HandlerState::session_group_members, (state, name), members),
        call_ensures(HandlerState::runtime_session_name, (state, name), runtime),
    ensures
        members.deep_view().contains(other) <==> state@.groups.contains_key(other)
            && state@.groups.contains_key(name@) && state@.groups[other] == state@.groups[name@],
        runtime@ == panes_of(state@, name@),
{
    assert(members.deep_view().contains(other) == state@.grouped(other, name@));
}

/// Commands for the start of a client go out one line each; a list value is divided;
/// and a key that was written out is written the same again.
pub proof fn law_written_forms(
    commands: &Vec<String>,
    bytes: Vec<u8>,
    value: &str,
    parts: Vec<String>,
    key: &str,
    once: Option<String>,
    again: Option<String>,
    written: &str,
)
    requires
        call_ensures(write_initial_commands, (commands,), bytes),
        call_ensures(split_array_assignment, (value, ""), parts),
        call_ensures(normalize_key, (key,), once),
        once is Some ==> written@ == once->0@,
        call_ensures(normalize_key, (written,), again),
    ensures
        commands@.len() == 0 ==> bytes@.len() == 0,
        commands@.len() > 0 ==> bytes@.last() == 10,
        parts@.len() == 1 && parts@[0]@ == value@,
        once is Some ==> again is Some && again->0@ == once->0@,
{
    reveal_strlit("");
    crate::options::law_normal_key_is_stable(key@);
    if let Some(done) = once {
        assert(once.deep_view() == Some(done@));
        if let Some(more) = again {
            assert(again.deep_view() == Some(more@));
        }
    }
    let list = commands.deep_view();
    if list.len() > 0 {
        assert(crate::client::command_lines(list).last() == 10);
    }
    assert(""@ =~= Seq::<char>::empty());
    assert(parts.deep_view() =~= seq![value@]);
    assert(parts.deep_view().len() == parts@.len());
    assert(parts.deep_view()[0] == parts@[0]@);
}

} // verus!

//! Laws of what requests about targets, panes, windows and options are answered.
use vstd::prelude::*;

use crate::laws::options::{off_word, on_word};
use crate::laws::panes::law_capture_shows_what_follows_the_history;
use crate::laws::targets::{law_texts_without_session_need_one, names_no_session, pane_in_session};
use crate::laws::texts::tight;
use crate::laws::windows::law_window_moves_to_other_session;
use crate::names::{
    ErrorView, OptionScopeSelector, PaneTarget, ProtoError, ScopeSelector, SessionName, Slot,
    Target, WindowTarget,
};
use crate::options::{
    build_mutation_outcome, default_scalar_text, normalize_scalar_value, DefaultValue,
    OptionMutationOutcome, OptionQuery, Reading, StoredOptionValue,
};
use crate::passthrough::{render_passthroughs, OpenAttachTarget, TerminalPassthrough};
use crate::protocol::Response;
use crate::session::{RotateWindowDirection, Session};
use crate::snapshot::{handle_pane_snapshot, Transcript};
use crate::state::HandlerState;
use crate::targets::{
    handle_resolve_target, resolve_existing_session_target, resolve_session_lookup,
    resolve_target_response, target_to_scope, unresolved_target_needs_current_session,
    ResolveTargetRequest, SessionLookup, TargetLookup,
};
use crate::window_movement::{MoveWindowRequest, MoveWindowTarget, Pending, Settled, Step, Undone};

verus! {

/// The cell of an answered capture at a row and a column is that of the screen as many
/// lines behind its history, or a blank one where the screen has none there.
pub proof fn law_answered_captures(
    state: &HandlerState,
    target: &PaneTarget,
    transcript: Transcript,
    row: int,
    col: int,
    r: Response,
)
    requires
        call_ensures(
            handle_pane_snapshot,
            (state, target, Ok::<Transcript, ProtoError>(transcript)),
            r,
        ),
        state@.pane_id(target@) is Ok,
        0 <= row < transcript.screen.size.rows,
        0 <= col < transcript.screen.size.cols,
    ensures
        r is PaneSnapshot,
        r->PaneSnapshot_0.cols == transcript.screen.size.cols,
        r->PaneSnapshot_0.rows == transcript.screen.size.rows,
        ({
            let screen = transcript.screen;
            let cells = r->PaneSnapshot_0.cells@;
            let at = screen.history_size + row;
            let k = row * screen.size.cols + col;
            &&& cells.len() == screen.size.rows * screen.size.cols
            &&& 0 <= k < cells.len()
            &&& (at < screen.lines@.len() && col < screen.lines@[at]@.len()) ==> cells[k]@
                == screen.lines@[at]@[col]@
            &&& !(at < screen.lines@.len() && col < screen.lines@[at]@.len()) ==> {
                &&& cells[k].text@ == " "@
                &&& cells[k].width == 1
                &&& !cells[k].padding
                &&& cells[k].attributes == 0
                &&& cells[k].fg == 8 && cells[k].bg == 8 && cells[k].us == 8
                &&& cells[k].link == 0
            }
        }),
        r->PaneSnapshot_0.cursor.visible == (transcript.screen.mode & 1 != 0),
        r->PaneSnapshot_0.cursor.style == transcript.screen.cursor_style,
        transcript.screen.cursor_x <= 65535 ==> r->PaneSnapshot_0.cursor.col
            == transcript.screen.cursor_x,
        transcript.screen.cursor_y <= 65535 ==> r->PaneSnapshot_0.cursor.row
            == transcript.screen.cursor_y,
        r->PaneSnapshot_0.revision != 0,
{
    let pane_id = state@.pane_id(target@)->Ok_0;
    law_capture_shows_what_follows_the_history(transcript, pane_id, row, col);
    crate::laws::panes::law_capture_tells_the_screen(transcript, pane_id);
    let seen = r->PaneSnapshot_0.cells.deep_view();
    let k = row * transcript.screen.size.cols + col;
    assert(seen.len() == r->PaneSnapshot_0.cells@.len());
    assert(seen[k] == r->PaneSnapshot_0.cells@[k]@);
}

/// A capture of a pane that is not there, or that cannot be read, is an error.
pub proof fn law_captures_are_refused(
    state: &HandlerState,
    target: &PaneTarget,
    transcript: Result<Transcript, ProtoError>,
    r: Response,
)
    requires
        call_ensures(handle_pane_snapshot, (state, target, transcript), r),
    ensures
        r is Error <==> state@.pane_id(target@) is Err || transcript is Err,
        state@.pane_id(target@) matches Err(error) ==> r->Error_0.error@ == error,
        (state@.pane_id(target@) is Ok && transcript is Err) ==> r->Error_0.error
            == transcript->Err_0,
{
}

/// A target text that begins with a plus, a minus or a colon, that has a dot but no
/// colon, or that is empty, is looked up from the active pane of the preferred
/// session; any other is looked up on its own.
pub proof fn law_lookups_know_the_current_pane(
    request: ResolveTargetRequest,
    state: &HandlerState,
    preferred: &Option<SessionName>,
    r: TargetLookup,
    raw: &str,
    needs: bool,
)
    requires
        call_ensures(handle_resolve_target, (request, state, preferred), r),
        call_ensures(unresolved_target_needs_current_session, (raw,), needs),
    ensures
        needs <==> names_no_session(raw@),
        (request.target is None || names_no_session(request.target->0@)) && *preferred is Some
            ==> r.current.deep_view() == pane_in_session(state@, preferred->0@),
        (request.target is Some && !names_no_session(request.target->0@)) || *preferred is None
            ==> r.current is None,
        r.target == request.target,
        r.target_type == request.target_type,
        r.window_index == request.window_index,
        r.prefer_unattached == request.prefer_unattached,
{
    law_texts_without_session_need_one(request, state@, *preferred);
    crate::laws::targets::lemma_names_no_session(raw@);
    assert(r.current.deep_view() is None <==> r.current is None);
}

/// A target that was found is told, and so is why none was. A missing session is no
/// error where it may be missing, and one under its own name where it may not.
pub proof fn law_found_targets(
    found: Result<Target, ProtoError>,
    name: &SessionName,
    told: Response,
    looked: Result<SessionLookup, ProtoError>,
    existing: Result<SessionName, ProtoError>,
)
    requires
        call_ensures(resolve_target_response, (found,), told),
        call_ensures(resolve_session_lookup, (found,), looked),
        call_ensures(resolve_existing_session_target, (found, name), existing),
    ensures
        found matches Ok(target) ==> {
            &&& told matches Response::ResolveTarget(answer) && answer.target == target
            &&& looked == Ok::<SessionLookup, ProtoError>(
                SessionLookup::Found(target.spec_session_name()),
            )
            &&& existing == Ok::<SessionName, ProtoError>(target.spec_session_name())
        },
        found matches Err(error) ==> {
            let missing = crate::targets::is_missing_session(error@);
            &&& told matches Response::Error(answer) && answer.error == error
            &&& missing ==> looked is Ok && looked->Ok_0 is Missing
            &&& !missing ==> looked == Err::<SessionLookup, ProtoError>(error)
            &&& existing is Err
            &&& missing ==> existing->Err_0@ == ErrorView::SessionNotFound(name@)
            &&& !missing ==> existing->Err_0@ == error@
        },
{
}

/// A target is a scope: a session, a window or a pane.
pub proof fn law_targets_are_scopes(target: &Target, r: ScopeSelector)
    requires
        call_ensures(target_to_scope, (target,), r),
    ensures
        *target matches Target::Session(name) ==> r == ScopeSelector::Session(name),
        *target matches Target::Window(window) ==> r == ScopeSelector::Window(window),
        *target matches Target::Pane(pane) ==> r == ScopeSelector::Pane(pane),
{
}

/// Images and other sequences go through to a terminal that takes them, and to no
/// other.
pub proof fn law_passthrough_is_wanted(
    target: &OpenAttachTarget,
    passthroughs: &Vec<TerminalPassthrough>,
    r: Vec<u8>,
)
    requires
        call_ensures(render_passthroughs, (target, passthroughs), r),
    ensures
        !target.kitty_graphics_passthrough ==> r@.len() == 0,
        target.kitty_graphics_passthrough ==> r@ == crate::passthrough::all_rendered(
            target.active_pane_geometry,
            passthroughs@,
        ),
{
}

/// A flag is stored as on for on, 1 and yes, and as off for off, 0 and no.
pub proof fn law_stored_flags(
    query: &OptionQuery,
    value: Option<&str>,
    current: Option<&str>,
    reading: &Reading,
    r: Result<StoredOptionValue, ProtoError>,
)
    requires
        query.value_type is Flag,
        value is Some,
        tight(value->0@),
        call_ensures(normalize_scalar_value, (query, value, current, reading), r),
    ensures
        on_word(value->0@) ==> r is Ok && r->Ok_0 == StoredOptionValue::Flag(true),
        off_word(value->0@) ==> r is Ok && r->Ok_0 == StoredOptionValue::Flag(false),
        value->0@ == "on"@ || value->0@ == "1"@ || value->0@ == "yes"@ ==> r is Ok && r->Ok_0
            == StoredOptionValue::Flag(true),
        value->0@ == "off"@ || value->0@ == "0"@ || value->0@ == "no"@ ==> r is Ok && r->Ok_0
            == StoredOptionValue::Flag(false),
        (value->0@.len() > 0 && !on_word(value->0@) && !off_word(value->0@)) ==> r is Err,
{
    let word = value->0@;
    let none: Seq<char> = Seq::empty();
    crate::laws::options::law_flags(*query, none, word, none, current.deep_view(), reading@);
    assert(none + word + none =~= word);
    assert(value.deep_view() == Some(word));
    if let Ok(stored) = r {
        assert(stored@ is Flag <==> stored is Flag);
    }
}

/// A change to an option is told under its name, with what it affects, where it
/// affects anything.
pub proof fn law_changes_are_told(
    query: &OptionQuery,
    scope: OptionScopeSelector,
    r: OptionMutationOutcome,
    default: &DefaultValue,
    words: String,
)
    requires
        call_ensures(build_mutation_outcome, (query, scope), r),
        call_ensures(default_scalar_text, (default,), words),
    ensures
        r.name@ == query.canonical_name@,
        query.known matches Some(known) ==> r.known_option == Some(known.0),
        query.known is None ==> r.known_option is None,
        query.effects.bits == 0 ==> r.notifications@.len() == 0,
        query.effects.bits != 0 ==> {
            &&& r.notifications@.len() == 1
            &&& r.notifications@[0].name@ == query.canonical_name@
            &&& r.notifications@[0].scope == scope
            &&& r.notifications@[0].effects == query.effects
        },
        *default matches DefaultValue::Scalar(value) ==> words@ == value@,
        *default is Array ==> words@.len() == 0,
{
    reveal_strlit("");
}

/// A window that was moved to another session stands at its new index there, and is
/// the active one unless it was moved in the background; then the one that was active
/// stays so.
pub proof fn law_moved_windows_are_shown(
    state: &mut HandlerState,
    request: MoveWindowRequest,
    source: WindowTarget,
    target: WindowTarget,
    r: Step,
)
    requires
        call_ensures(HandlerState::move_window, (state, request), r),
        !request.renumber,
        request.source == Some(source),
        request.target == MoveWindowTarget::Window(target),
        source.session_name@ != target.session_name@,
    ensures
        !(r is Applied) ==> final(state)@ == old(state)@,
        r is Applied ==> {
            let before = old(state)@.sessions[target.session_name@];
            let after = final(state)@.sessions[target.session_name@];
            let left = final(state)@.sessions[source.session_name@];
            let window = old(state)@.sessions[source.session_name@].windows[source.window_index];
            &&& !request.detached ==> after.active == target.window_index
            &&& request.detached ==> after.active == before.active
            &&& after.windows.contains_key(target.window_index)
            &&& after.windows[target.window_index] == window
            &&& !left.windows.contains_key(source.window_index)
        },
{
    if old(state)@.move_step(request) is Applied {
        law_window_moves_to_other_session(old(state)@, request, source, target);
    }
}

/// The panes of a window that is rotated: upwards each takes the place before it, and
/// the first goes last; downwards the other way round.
pub proof fn law_sessions_rotate_windows(
    session: &mut Session,
    index: u32,
    direction: RotateWindowDirection,
    r: Result<(), ProtoError>,
    i: int,
)
    requires
        call_ensures(Session::rotate_window, (session, index, direction), r),
        old(session)@.windows.contains_key(index),
    ensures
        r is Ok,
        ({
            let before = old(session)@.windows[index].panes;
            let after = final(session)@.windows[index].panes;
            let n = before.len() as int;
            &&& after.len() == n
            &&& direction is Up && 0 <= i < n - 1 ==> after[i].id == before[i + 1].id
            &&& direction is Up && n > 0 ==> after[n - 1].id == before[0].id
            &&& direction is Down && 0 < i < n ==> after[i].id == before[i - 1].id
            &&& direction is Down && n > 0 ==> after[0].id == before[n - 1].id
            &&& !final(session)@.windows[index].zoomed
        }),
        final(session)@.active == old(session)@.active,
{
    crate::laws::windows::law_panes_rotate(old(session)@.windows[index], direction, false);
}

/// A change stays where the terminals could be resized, and is taken back where they
/// could not.
pub proof fn law_changes_are_settled(
    state: &mut HandlerState,
    pending: Pending,
    resized: Result<(), ProtoError>,
    r: Settled,
)
    requires
        pending.change.wf(),
        call_ensures(HandlerState::settle, (state, pending, resized), r),
    ensures
        resized matches Err(error) ==> {
            &&& r matches Settled::Undone(undone) && undone.error@ == error@
            &&& final(state)@ == pending.change.undone(old(state)@)
        },
        resized is Ok ==> !(r is Undone),
        r matches Settled::Done(response) ==> response == pending.response,
{
}

/// The error of a change that was taken back is the one that led to it, unless the
/// terminals could not be resized back: between two sessions that failure is told, and
/// within one both are.
pub proof fn law_errors_of_undone_changes(
    undone: Undone,
    resized: Result<(), ProtoError>,
    r: ProtoError,
)
    requires
        call_ensures(Undone::conclude, (undone, resized), r),
    ensures
        resized is Ok ==> r@ == undone.error@,
        (resized is Err && undone.touched@ is Two) ==> r@ == resized->Err_0@,
        (resized matches Err(rollback) && undone.touched@ is One) ==> r@ == ErrorView::Server(
            "failed to roll back session "@ + undone.touched@->One_0 + " after "@
                + undone.error@.message() + ": "@ + resized->Err_0@.message(),
        ),
{
}

/// How often a window is linked, and in which sessions: as often as its group has
/// positions, or once.
pub proof fn law_link_counts(
    state: &HandlerState,
    name: &SessionName,
    index: u32,
    count: usize,
    sessions: usize,
    list: Vec<SessionName>,
    runtime: SessionName,
    i: int,
)
    requires
        state@.links_wf(),
        call_ensures(HandlerState::window_link_count, (state, name, index), count),
        call_ensures(HandlerState::window_linked_session_count, (state, name, index), sessions),
        call_ensures(HandlerState::window_linked_sessions_list, (state, name, index), list),
        call_ensures(HandlerState::runtime_session_name_for_window, (state, name, index), runtime),
    ensures
        !state@.link_slots.contains_key((name@, index)) ==> {
            &&& count == 1
            &&& sessions == 1
            &&& list@.len() == 1 && list@[0]@ == name@
            &&& !state@.owners.contains_key(name@) ==> runtime@ == name@
            &&& state@.owners.contains_key(name@) ==> runtime@ == state@.owners[name@]
        },
        state@.link_slots.contains_key((name@, index)) ==> {
            let group = state@.link_groups[state@.link_slots[(name@, index)]];
            &&& count == group.slots.len()
            &&& list@.len() == group.slots.len()
            &&& 0 <= i < list@.len() ==> list@[i]@ == group.slots[i].0
            &&& sessions <= count
            &&& runtime@ == group.runtime
        },
{
    let slot = (name@, index);
    assert(list.deep_view().len() == list@.len());
    if list@.len() > 0 {
        assert(list.deep_view()[0] == list@[0]@);
    }
    if 0 <= i < list@.len() {
        assert(list.deep_view()[i] == list@[i]@);
    }
    if state@.link_slots.contains_key(slot) {
        let group = state@.link_groups[state@.link_slots[slot]];
        let names = group.slots.map_values(|slot: Slot| slot.0);
        vstd::seq_lib::seq_to_set_is_finite(names);
        names.lemma_cardinality_of_set();
    }
}

} // verus!

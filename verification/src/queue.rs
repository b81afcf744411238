//! The command queue: the context in which a queued command runs, and what it
//! leaves for the queue.
use std::collections::VecDeque;

use vstd::prelude::*;

use crate::names::{ProtoError, Target};
use crate::protocol::Response;
use crate::response::CommandOutput;

verus! {

/// The context in which a queued command runs.
#[derive(Debug, PartialEq, Eq)]
pub struct QueueExecutionContext {
    /// The directory of the caller.
    pub caller_cwd: Option<String>,
    /// How many files the command was read through.
    pub source_file_depth: usize,
    /// The file that the command was read from.
    pub current_file: Option<String>,
    /// The current target.
    pub current_target: Option<Target>,
    /// The target under the mouse.
    pub mouse_target: Option<Target>,
}

/// Copies a text that may be missing.
pub(crate) fn same_text(value: &Option<String>) -> (r: Option<String>)
    ensures
        r == *value,
{
    match value {
        Some(text) => Some(text.clone()),
        None => None,
    }
}

/// Copies a target that may be missing.
pub(crate) fn same_target(value: &Option<Target>) -> (r: Option<Target>)
    ensures
        r == *value,
{
    match value {
        Some(target) => Some(target.clone()),
        None => None,
    }
}

impl Clone for QueueExecutionContext {
    fn clone(&self) -> (r: Self)
        ensures
            r == *self,
    {
        QueueExecutionContext {
            caller_cwd: same_text(&self.caller_cwd),
            source_file_depth: self.source_file_depth,
            current_file: same_text(&self.current_file),
            current_target: same_target(&self.current_target),
            mouse_target: same_target(&self.mouse_target),
        }
    }
}

impl QueueExecutionContext {
    /// The context of a command that a caller in some directory gives.
    pub fn new(caller_cwd: Option<String>) -> (r: Self)
        ensures
            r == (QueueExecutionContext {
                caller_cwd,
                source_file_depth: 0,
                current_file: None,
                current_target: None,
                mouse_target: None,
            }),
    {
        QueueExecutionContext {
            caller_cwd,
            source_file_depth: 0,
            current_file: None,
            current_target: None,
            mouse_target: None,
        }
    }

    /// The context of a command whose caller has no directory.
    pub fn without_caller_cwd() -> (r: Self)
        ensures
            r == (QueueExecutionContext {
                caller_cwd: None,
                source_file_depth: 0,
                current_file: None,
                current_target: None,
                mouse_target: None,
            }),
    {
        Self::new(None)
    }

    /// The context of commands that this one reads from a file.
    pub open spec fn sourced(self, source_file_depth: usize, current_file: Option<String>) -> Self {
        QueueExecutionContext { source_file_depth, current_file, ..self }
    }

    /// The context of commands that this one reads from a file.
    pub fn for_sourced_commands(
        &self,
        source_file_depth: usize,
        current_file: Option<String>,
    ) -> (r: Self)
        ensures
            r == self.sourced(source_file_depth, current_file),
    {
        QueueExecutionContext {
            caller_cwd: same_text(&self.caller_cwd),
            source_file_depth,
            current_file,
            current_target: same_target(&self.current_target),
            mouse_target: same_target(&self.mouse_target),
        }
    }

    /// The same context with another current target.
    pub fn with_current_target(self, current_target: Option<Target>) -> (r: Self)
        ensures
            r == (QueueExecutionContext { current_target, ..self }),
    {
        QueueExecutionContext {
            caller_cwd: self.caller_cwd,
            source_file_depth: self.source_file_depth,
            current_file: self.current_file,
            current_target,
            mouse_target: self.mouse_target,
        }
    }

    /// The same context with another target under the mouse.
    pub fn with_mouse_target(self, mouse_target: Option<Target>) -> (r: Self)
        ensures
            r == (QueueExecutionContext { mouse_target, ..self }),
    {
        QueueExecutionContext {
            caller_cwd: self.caller_cwd,
            source_file_depth: self.source_file_depth,
            current_file: self.current_file,
            current_target: self.current_target,
            mouse_target,
        }
    }

    /// The current target.
    pub fn current_target(&self) -> (r: Option<&Target>)
        ensures
            match r {
                Some(target) => self.current_target == Some(*target),
                None => self.current_target is None,
            },
    {
        self.current_target.as_ref()
    }
}

/// What a queued command leaves for the queue. `C` holds parsed commands.
#[derive(Debug, PartialEq, Eq)]
pub enum QueueCommandAction<C> {
    /// The queue goes on.
    Normal {
        /// What the command prints.
        output: Option<CommandOutput>,
        /// What went wrong.
        error: Option<ProtoError>,
    },
    /// Other commands come next in the queue.
    InsertAfter {
        /// The commands, each batch with its context.
        batches: Vec<(C, QueueExecutionContext)>,
        /// What the command prints.
        output: Option<CommandOutput>,
        /// What went wrong.
        error: Option<ProtoError>,
    },
}

impl<C> QueueCommandAction<C> {
    /// Nothing to print and no error.
    pub open spec fn is_quiet(self) -> bool {
        self matches QueueCommandAction::Normal { output: None, error: None }
    }
}

/// What is printed, unless it is nothing.
pub open spec fn unless_silent(output: Option<Seq<u8>>) -> Option<Seq<u8>> {
    match output {
        Some(bytes) => if bytes.len() > 0 {
            Some(bytes)
        } else {
            None
        },
        None => None,
    }
}

/// The contexts of the items of a queue that belong to another group. Items and
/// contexts correspond in order, and what is left over on either side has no
/// place in the queue.
pub open spec fn other_contexts(
    groups: Seq<u64>,
    contexts: Seq<QueueExecutionContext>,
    group: u64,
) -> Seq<QueueExecutionContext>
    decreases groups.len(),
{
    if groups.len() == 0 || contexts.len() == 0 {
        Seq::empty()
    } else {
        let rest = other_contexts(groups.skip(1), contexts.skip(1), group);
        if groups[0] == group {
            rest
        } else {
            seq![contexts[0]] + rest
        }
    }
}

/// The groups of a queue that are not the given one.
pub open spec fn other_groups(groups: Seq<u64>, group: u64) -> Seq<u64>
    decreases groups.len(),
{
    if groups.len() == 0 {
        Seq::empty()
    } else if groups[0] == group {
        other_groups(groups.skip(1), group)
    } else {
        seq![groups[0]] + other_groups(groups.skip(1), group)
    }
}

/// Removes the contexts of the items that belong to a group, given the groups of
/// the items in the queue.
pub fn remove_group_contexts(
    groups: &Vec<u64>,
    contexts: &mut VecDeque<QueueExecutionContext>,
    group: u64,
)
    ensures
        final(contexts)@ == other_contexts(groups@, old(contexts)@, group),
{
    let ghost all = contexts@;
    let mut retained: VecDeque<QueueExecutionContext> = VecDeque::new();
    let mut i: usize = 0;
    proof {
        assert(groups@.skip(0) =~= groups@);
        assert(all.skip(0) =~= all);
        assert(retained@ + other_contexts(groups@, all, group) =~= other_contexts(
            groups@,
            all,
            group,
        ));
    }
    while i < groups.len() && contexts.len() > 0
        invariant
            i <= groups@.len(),
            i <= all.len(),
            contexts@ == all.skip(i as int),
            retained@ + other_contexts(groups@.skip(i as int), all.skip(i as int), group)
                == other_contexts(groups@, all, group),
        decreases groups.len() - i,
    {
        let ghost before = retained@;
        let ghost rest = other_contexts(groups@.skip(i + 1), all.skip(i + 1), group);
        proof {
            assert(groups@.skip(i as int).skip(1) =~= groups@.skip(i + 1));
            assert(all.skip(i as int).skip(1) =~= all.skip(i + 1));
            assert(all.skip(i as int)[0] == all[i as int]);
            assert(groups@.skip(i as int)[0] == groups@[i as int]);
        }
        if let Some(context) = contexts.pop_front() {
            assert(contexts@ =~= all.skip(i + 1));
            if groups[i] != group {
                retained.push_back(context);
                assert(retained@ + rest =~= before + (seq![all[i as int]] + rest));
            }
        }
        i = i + 1;
    }
    assert(retained@ =~= other_contexts(groups@, all, group));
    *contexts = retained;
}

/// The items of a queue, each as its group with its context.
pub open spec fn paired(
    groups: Seq<u64>,
    contexts: Seq<QueueExecutionContext>,
) -> Seq<(u64, QueueExecutionContext)> {
    Seq::new(groups.len(), |i: int| (groups[i], contexts[i]))
}

/// The items of a queue that belong to another group.
pub open spec fn other_items(
    items: Seq<(u64, QueueExecutionContext)>,
    group: u64,
) -> Seq<(u64, QueueExecutionContext)>
    decreases items.len(),
{
    if items.len() == 0 {
        Seq::empty()
    } else if items[0].0 == group {
        other_items(items.skip(1), group)
    } else {
        seq![items[0]] + other_items(items.skip(1), group)
    }
}

/// After a group has left a queue whose items and contexts correspond, they
/// still do: each item that is left has the context that it had.
pub proof fn law_contexts_stay_with_items(
    groups: Seq<u64>,
    contexts: Seq<QueueExecutionContext>,
    group: u64,
)
    requires
        groups.len() == contexts.len(),
    ensures
        other_contexts(groups, contexts, group).len() == other_groups(groups, group).len(),
        paired(other_groups(groups, group), other_contexts(groups, contexts, group))
            == other_items(paired(groups, contexts), group),
    decreases groups.len(),
{
    let items = paired(groups, contexts);
    if groups.len() > 0 {
        law_contexts_stay_with_items(groups.skip(1), contexts.skip(1), group);
        assert(items.skip(1) =~= paired(groups.skip(1), contexts.skip(1)));
        if groups[0] != group {
            assert(paired(other_groups(groups, group), other_contexts(groups, contexts, group))
                =~= seq![items[0]] + paired(
                other_groups(groups.skip(1), group),
                other_contexts(groups.skip(1), contexts.skip(1), group),
            ));
        }
    } else {
        assert(paired(other_groups(groups, group), other_contexts(groups, contexts, group))
            =~= Seq::empty());
    }
}

/// Removing a group a second time changes nothing, for none of it is left.
pub proof fn law_group_is_gone(
    groups: Seq<u64>,
    contexts: Seq<QueueExecutionContext>,
    group: u64,
)
    requires
        groups.len() == contexts.len(),
    ensures
        !other_groups(groups, group).contains(group),
        other_contexts(
            other_groups(groups, group),
            other_contexts(groups, contexts, group),
            group,
        ) == other_contexts(groups, contexts, group),
    decreases groups.len(),
{
    if groups.len() > 0 {
        let rest_groups = other_groups(groups.skip(1), group);
        let rest = other_contexts(groups.skip(1), contexts.skip(1), group);
        law_group_is_gone(groups.skip(1), contexts.skip(1), group);
        if groups[0] != group {
            let left = other_groups(groups, group);
            assert(left.skip(1) =~= rest_groups);
            assert((seq![contexts[0]] + rest).skip(1) =~= rest);
            if left.contains(group) {
                let i = choose|i: int| 0 <= i < left.len() && left[i] == group;
                assert(rest_groups[i - 1] == group);
            }
        }
    }
}

/// What a command leaves for the queue, given its response: an error response is
/// an error, and any other leaves what it prints.
pub fn queue_action_from_response<C>(response: Response) -> (r: Result<
    QueueCommandAction<C>,
    ProtoError,
>)
    ensures
        match response {
            Response::Error(answer) => r matches Err(error) && error == answer.error,
            _ => r matches Ok(QueueCommandAction::Normal { output, error }) && error is None
                && output.deep_view() == unless_silent(response.spec_output()),
        },
{
    match response {
        Response::Error(answer) => Err(answer.error),
        response => {
            let output = match response.command_output() {
                Some(output) => if output.stdout().len() > 0 {
                    Some(output.clone())
                } else {
                    None
                },
                None => None,
            };
            Ok(QueueCommandAction::Normal { output, error: None })
        },
    }
}

/// What a prompt leaves for the queue.
#[derive(Debug, PartialEq, Eq)]
pub struct PromptQueueResult<C> {
    /// Commands that come next, with their context.
    pub inserted: Option<(C, QueueExecutionContext)>,
    /// What went wrong.
    pub error: Option<ProtoError>,
}

/// What a prompt command leaves for the queue.
pub fn prompt_queue_action_from_result<C>(result: PromptQueueResult<C>) -> (r: QueueCommandAction<
    C,
>)
    ensures
        match result.inserted {
            Some(batch) => r matches QueueCommandAction::InsertAfter { batches, output, error }
                && batches@ == seq![batch] && output is None && error == result.error,
            None => r == (QueueCommandAction::<C>::Normal { output: None, error: result.error }),
        },
{
    match result.inserted {
        Some(batch) => {
            let mut batches: Vec<(C, QueueExecutionContext)> = Vec::new();
            batches.push(batch);
            assert(batches@ =~= seq![batch]);
            QueueCommandAction::InsertAfter { batches, output: None, error: result.error }
        },
        None => QueueCommandAction::Normal { output: None, error: result.error },
    }
}

} // verus!

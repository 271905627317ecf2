//! Coordination between connection handlers.
//!
//! Handlers work on their own most of the time. Reading statuses and listing
//! clients are a broadcast of a request to every other handler followed by a
//! collection of their answers; refreshing is a broadcast alone. The registry
//! maps the id of each live handler to the handle of its inbox; `H` is that
//! handle's type, so a reply travels to the inbox named in the request.
use crate::common::communication::{status_view, CommunicationError, StatusView};
use crate::common::server_command::strings_view;
use crate::server::client_state::{name_for_logging, ClientState};
use vstd::prelude::*;
use vstd::string::*;

verus! {

broadcast use vstd::seq::group_seq_axioms;

/// A message from one handler to another.
pub enum TaskMessage<H> {
    /// Asks for the status and name of the receiver's client; answer to the handle.
    ReadMessageRequest(H),
    /// A client's status and its name for logging.
    ReadMessageResponse(Result<(), String>, String),
    /// Refresh the receiver's client if it has this name.
    RefreshByName(String),
    /// Refresh the receiver's client.
    RefreshAll,
    /// Asks for the name of the receiver's client; answer to the handle.
    ListClientsRequest(H),
    /// A client's name for logging.
    ListClientsResponse(String),
}

/// What a handler does with a message from another handler.
pub enum TaskAction<H> {
    /// Send this message to this handle.
    Reply(H, TaskMessage<H>),
    /// Queue a `Refresh` command for the own client.
    Refresh,
    /// Nothing.
    NoAction,
    /// The message is an answer that nobody asked for: a protocol error.
    Unexpected,
}

fn clone_status(s: &Result<(), String>) -> (r: Result<(), String>)
    ensures
        status_view(r) == status_view(*s),
{
    match s {
        Ok(()) => Ok(()),
        Err(m) => Err(m.clone()),
    }
}

/// The line a status contributes to a read: nothing for `Ok`, the message for
/// an error, prefixed by the client's name when names are included.
pub open spec fn status_line(status: StatusView, name: Seq<char>, include_names: bool) -> Option<
    Seq<char>,
> {
    match status {
        Ok(()) => None,
        Err(m) => Some(
            if include_names {
                name + ": "@ + m
            } else {
                m
            },
        ),
    }
}

/// The lines that collected status answers give; `None` when one of the
/// messages is not a status answer.
pub open spec fn status_lines<H>(msgs: Seq<TaskMessage<H>>, include_names: bool) -> Option<
    Seq<Seq<char>>,
>
    decreases msgs.len(),
{
    if msgs.len() == 0 {
        Some(Seq::empty())
    } else {
        match status_lines(msgs.drop_last(), include_names) {
            Some(prev) => match msgs.last() {
                TaskMessage::ReadMessageResponse(status, name) => match status_line(
                    status_view(status),
                    name@,
                    include_names,
                ) {
                    Some(line) => Some(prev.push(line)),
                    None => Some(prev),
                },
                _ => None,
            },
            None => None,
        }
    }
}

/// The names that collected list answers give; `None` when one of the
/// messages is not a list answer.
pub open spec fn client_names<H>(msgs: Seq<TaskMessage<H>>) -> Option<Seq<Seq<char>>>
    decreases msgs.len(),
{
    if msgs.len() == 0 {
        Some(Seq::empty())
    } else {
        match client_names(msgs.drop_last()) {
            Some(prev) => match msgs.last() {
                TaskMessage::ListClientsResponse(name) => Some(prev.push(name@)),
                _ => None,
            },
            None => None,
        }
    }
}

proof fn lemma_status_lines_none_stays<H>(msgs: Seq<TaskMessage<H>>, i: int, include_names: bool)
    requires
        0 <= i <= msgs.len(),
        status_lines(msgs.subrange(0, i), include_names) is None,
    ensures
        status_lines(msgs, include_names) is None,
    decreases msgs.len() - i,
{
    if i < msgs.len() {
        assert(msgs.subrange(0, i + 1).drop_last() =~= msgs.subrange(0, i));
        lemma_status_lines_none_stays(msgs, i + 1, include_names);
    } else {
        assert(msgs.subrange(0, i) =~= msgs);
    }
}

proof fn lemma_client_names_none_stays<H>(msgs: Seq<TaskMessage<H>>, i: int)
    requires
        0 <= i <= msgs.len(),
        client_names(msgs.subrange(0, i)) is None,
    ensures
        client_names(msgs) is None,
    decreases msgs.len() - i,
{
    if i < msgs.len() {
        assert(msgs.subrange(0, i + 1).drop_last() =~= msgs.subrange(0, i));
        lemma_client_names_none_stays(msgs, i + 1);
    } else {
        assert(msgs.subrange(0, i) =~= msgs);
    }
}

/// The registry of live handlers: task id and inbox handle, ids unique.
pub struct TaskCommunication<H> {
    tasks: Vec<(usize, H)>,
}

/// The ids of the handlers in `tasks` other than `task_id`, in registry order.
pub open spec fn other_ids<H>(tasks: Seq<(usize, H)>, task_id: usize) -> Seq<usize>
    decreases tasks.len(),
{
    if tasks.len() == 0 {
        Seq::empty()
    } else if tasks.last().0 == task_id {
        other_ids(tasks.drop_last(), task_id)
    } else {
        other_ids(tasks.drop_last(), task_id).push(tasks.last().0)
    }
}

/// No two entries share an id.
pub open spec fn ids_unique<H>(tasks: Seq<(usize, H)>) -> bool {
    forall|i: int, j: int| 0 <= i < j < tasks.len() ==> tasks[i].0 != tasks[j].0
}

/// Whether `id` is registered.
pub open spec fn registered<H>(tasks: Seq<(usize, H)>, id: usize) -> bool {
    exists|i: int| 0 <= i < tasks.len() && tasks[i].0 == id
}

impl<H> View for TaskCommunication<H> {
    type V = Seq<(usize, H)>;

    closed spec fn view(&self) -> Seq<(usize, H)> {
        self.tasks@
    }
}

impl<H> TaskCommunication<H> {
    /// No two registered handlers share an id.
    pub open spec fn wf(&self) -> bool {
        ids_unique(self@)
    }

    /// An empty registry.
    pub fn new() -> (r: Self)
        ensures
            r@.len() == 0,
            r.wf(),
    {
        TaskCommunication { tasks: Vec::new() }
    }

    /// Removes the handler with id `task_id`, if it is registered.
    pub fn unregister_task(&mut self, task_id: usize)
        requires
            old(self).wf(),
        ensures
            final(self).wf(),
            forall|id: usize| registered(final(self)@, id) <==> (registered(old(self)@, id) && id != task_id),
            registered(old(self)@, task_id) ==> exists|i: int|
                0 <= i < old(self)@.len() && old(self)@[i].0 == task_id && final(self)@ == old(
                    self,
                )@.remove(i),
            !registered(old(self)@, task_id) ==> final(self)@ == old(self)@,
    {
        let mut i: usize = 0;
        while i < self.tasks.len()
            invariant
                i <= self.tasks@.len(),
                self.tasks@ == old(self)@,
                ids_unique(self.tasks@),
                forall|k: int| 0 <= k < i ==> self.tasks@[k].0 != task_id,
            decreases self.tasks@.len() - i,
        {
            if self.tasks[i].0 == task_id {
                let ghost before = self.tasks@;
                self.tasks.remove(i);
                assert(self.tasks@ == before.remove(i as int));
                assert forall|a: int, b: int| 0 <= a < b < self.tasks@.len() implies self.tasks@[a].0 != self.tasks@[b].0 by {
                    let a2 = if a < i { a } else { a + 1 };
                    let b2 = if b < i { b } else { b + 1 };
                    assert(self.tasks@[a] == before[a2]);
                    assert(self.tasks@[b] == before[b2]);
                }
                assert forall|id: usize| registered(self.tasks@, id) implies registered(before, id) by {
                    let k = choose|k: int| 0 <= k < self.tasks@.len() && self.tasks@[k].0 == id;
                    if k < i {
                        assert(before[k].0 == id);
                    } else {
                        assert(before[k + 1].0 == id);
                    }
                }
                assert forall|id: usize| registered(before, id) && id != task_id implies registered(self.tasks@, id) by {
                    let k = choose|k: int| 0 <= k < before.len() && before[k].0 == id;
                    if k < i {
                        assert(self.tasks@[k].0 == id);
                    } else {
                        assert(k != i);
                        assert(self.tasks@[k - 1].0 == id);
                    }
                }
                assert(!registered(self.tasks@, task_id)) by {
                    if registered(self.tasks@, task_id) {
                        let k = choose|k: int| 0 <= k < self.tasks@.len() && self.tasks@[k].0 == task_id;
                        if k < i {
                        } else {
                            assert(before[k + 1].0 == task_id);
                            assert(before[i as int].0 == task_id);
                        }
                    }
                }
                return;
            }
            i = i + 1;
        }
        assert(!registered(old(self)@, task_id));
    }

    /// Registers a handler with its inbox handle, replacing any earlier entry
    /// with the same id.
    pub fn register_task(&mut self, task_id: usize, sender: H)
        requires
            old(self).wf(),
        ensures
            final(self).wf(),
            forall|id: usize| registered(final(self)@, id) <==> (registered(old(self)@, id) || id == task_id),
            registered(old(self)@, task_id) ==> exists|i: int|
                0 <= i < old(self)@.len() && old(self)@[i].0 == task_id && final(self)@ == old(
                    self,
                )@.remove(i).push((task_id, sender)),
            !registered(old(self)@, task_id) ==> final(self)@ == old(self)@.push((task_id, sender)),
    {
        self.unregister_task(task_id);
        let ghost before = self.tasks@;
        self.tasks.push((task_id, sender));
        assert forall|i: int, j: int| 0 <= i < j < self.tasks@.len() implies self.tasks@[i].0 != self.tasks@[j].0 by {
            if j == self.tasks@.len() - 1 {
                assert(self.tasks@[i] == before[i]);
                if before[i].0 == task_id {
                    assert(registered(before, task_id));
                }
            }
        }
        assert forall|id: usize| registered(self.tasks@, id) <==> (registered(before, id) || id == task_id) by {
            if registered(self.tasks@, id) && id != task_id {
                let k = choose|k: int| 0 <= k < self.tasks@.len() && self.tasks@[k].0 == id;
                assert(before[k].0 == id);
            }
            if registered(before, id) {
                let k = choose|k: int| 0 <= k < before.len() && before[k].0 == id;
                assert(self.tasks@[k].0 == id);
            }
            if id == task_id {
                assert(self.tasks@[before.len() as int].0 == id);
            }
        }
    }

    /// The ids of every registered handler but `task_id`: the receivers of a
    /// broadcast from that handler.
    pub fn other_task_ids(&self, task_id: usize) -> (r: Vec<usize>)
        ensures
            r@ == other_ids(self@, task_id),
    {
        let mut r: Vec<usize> = Vec::new();
        let mut i: usize = 0;
        while i < self.tasks.len()
            invariant
                i <= self.tasks@.len(),
                r@ == other_ids(self.tasks@.subrange(0, i as int), task_id),
            decreases self.tasks@.len() - i,
        {
            assert(self.tasks@.subrange(0, i + 1).drop_last() =~= self.tasks@.subrange(0, i as int));
            if self.tasks[i].0 != task_id {
                r.push(self.tasks[i].0);
            }
            i = i + 1;
        }
        assert(self.tasks@.subrange(0, self.tasks@.len() as int) =~= self.tasks@);
        r
    }

    /// The inbox handle of a registered handler.
    pub fn get_sender(&self, task_id: usize) -> (r: Option<&H>)
        ensures
            match r {
                Some(h) => exists|i: int| 0 <= i < self@.len() && self@[i] == (task_id, *h),
                None => !registered(self@, task_id),
            },
    {
        let mut i: usize = 0;
        while i < self.tasks.len()
            invariant
                i <= self.tasks@.len(),
                forall|k: int| 0 <= k < i ==> self.tasks@[k].0 != task_id,
            decreases self.tasks@.len() - i,
        {
            if self.tasks[i].0 == task_id {
                assert(self@ == self.tasks@);
                assert(self@[i as int] == (task_id, self.tasks@[i as int].1));
                return Some(&self.tasks[i].1);
            }
            i = i + 1;
        }
        None
    }

    /// Handles a message from another handler, given the own client's state.
    /// Requests are answered with the own status or name; a refresh by name
    /// applies exactly when the own client carries that name.
    pub fn process_task_message(message: TaskMessage<H>, client_state: &ClientState) -> (r: TaskAction<H>)
        ensures
            match message {
                TaskMessage::ReadMessageRequest(h) => match r {
                    TaskAction::Reply(to, TaskMessage::ReadMessageResponse(status, name)) => to == h
                        && status_view(status) == client_state@.status && name@ == name_for_logging(
                        client_state@.name,
                    ),
                    _ => false,
                },
                TaskMessage::ListClientsRequest(h) => match r {
                    TaskAction::Reply(to, TaskMessage::ListClientsResponse(name)) => to == h && name@
                        == name_for_logging(client_state@.name),
                    _ => false,
                },
                TaskMessage::RefreshByName(n) => (r is Refresh || r is NoAction) && (r is Refresh
                    <==> client_state@.name == Some(n@)),
                TaskMessage::RefreshAll => r is Refresh,
                _ => r is Unexpected,
            },
    {
        match message {
            TaskMessage::ReadMessageRequest(reply_to) => {
                let status = clone_status(client_state.get_status());
                let name = client_state.get_name_for_logging();
                TaskAction::Reply(reply_to, TaskMessage::ReadMessageResponse(status, name))
            },
            TaskMessage::ListClientsRequest(reply_to) => {
                let name = client_state.get_name_for_logging();
                TaskAction::Reply(reply_to, TaskMessage::ListClientsResponse(name))
            },
            TaskMessage::RefreshByName(name) => {
                let matches_name = match client_state.get_name() {
                    Some(current) => current.eq(&name),
                    None => false,
                };
                if matches_name {
                    TaskAction::Refresh
                } else {
                    TaskAction::NoAction
                }
            },
            TaskMessage::RefreshAll => TaskAction::Refresh,
            TaskMessage::ReadMessageResponse(_, _) => TaskAction::Unexpected,
            TaskMessage::ListClientsResponse(_) => TaskAction::Unexpected,
        }
    }

    /// The messages of a refresh by name from handler `task_id`: one to every
    /// other registered handler.
    pub fn refresh_client_by_name(&self, task_id: usize, name: String) -> (r: Vec<
        (usize, TaskMessage<H>),
    >)
        ensures
            r@.len() == other_ids(self@, task_id).len(),
            forall|i: int|
                0 <= i < r@.len() ==> #[trigger] r@[i].0 == other_ids(self@, task_id)[i] && match r@[i].1 {
                    TaskMessage::RefreshByName(n) => n@ == name@,
                    _ => false,
                },
    {
        let ids = self.other_task_ids(task_id);
        let mut r: Vec<(usize, TaskMessage<H>)> = Vec::new();
        let mut i: usize = 0;
        while i < ids.len()
            invariant
                i <= ids@.len(),
                ids@ == other_ids(self@, task_id),
                r@.len() == i,
                forall|k: int|
                    0 <= k < i ==> #[trigger] r@[k].0 == ids@[k] && match r@[k].1 {
                        TaskMessage::RefreshByName(n) => n@ == name@,
                        _ => false,
                    },
            decreases ids@.len() - i,
        {
            r.push((ids[i], TaskMessage::RefreshByName(name.clone())));
            i = i + 1;
        }
        r
    }

    /// The messages of a refresh of every client from handler `task_id`: one
    /// to every other registered handler.
    pub fn refresh_all_clients(&self, task_id: usize) -> (r: Vec<(usize, TaskMessage<H>)>)
        ensures
            r@.len() == other_ids(self@, task_id).len(),
            forall|i: int|
                0 <= i < r@.len() ==> #[trigger] r@[i].0 == other_ids(self@, task_id)[i] && r@[i].1 is RefreshAll,
    {
        let ids = self.other_task_ids(task_id);
        let mut r: Vec<(usize, TaskMessage<H>)> = Vec::new();
        let mut i: usize = 0;
        while i < ids.len()
            invariant
                i <= ids@.len(),
                ids@ == other_ids(self@, task_id),
                r@.len() == i,
                forall|k: int| 0 <= k < i ==> #[trigger] r@[k].0 == ids@[k] && r@[k].1 is RefreshAll,
            decreases ids@.len() - i,
        {
            r.push((ids[i], TaskMessage::RefreshAll));
            i = i + 1;
        }
        r
    }

    /// The error statuses among collected status answers, one line each,
    /// prefixed by the client's name when `include_names` is set. An answer
    /// of another kind is a protocol error.
    pub fn read_messages(responses: Vec<TaskMessage<H>>, include_names: bool) -> (r: Result<
        Vec<String>,
        CommunicationError,
    >)
        ensures
            match r {
                Ok(lines) => status_lines(responses@, include_names) == Some(strings_view(lines@)),
                Err(e) => status_lines(responses@, include_names) is None && e
                    == CommunicationError::UnexpectedCommand,
            },
    {
        let mut lines: Vec<String> = Vec::new();
        let mut i: usize = 0;
        assert(strings_view(lines@) =~= Seq::<Seq<char>>::empty());
        while i < responses.len()
            invariant
                i <= responses@.len(),
                status_lines(responses@.subrange(0, i as int), include_names) == Some(
                    strings_view(lines@),
                ),
            decreases responses@.len() - i,
        {
            let ghost next = responses@.subrange(0, i + 1);
            assert(next.drop_last() =~= responses@.subrange(0, i as int));
            match &responses[i] {
                TaskMessage::ReadMessageResponse(status, name) => {
                    match status {
                        Ok(()) => {},
                        Err(m) => {
                            let line = if include_names {
                                let mut l = name.clone();
                                l.append(": ");
                                l.append(m.as_str());
                                l
                            } else {
                                m.clone()
                            };
                            proof {
                                lines@.lemma_push_map_commute(|s: String| s@, line);
                            }
                            lines.push(line);
                        },
                    }
                },
                _ => {
                    proof {
                        lemma_status_lines_none_stays(responses@, i + 1, include_names);
                    }
                    return Err(CommunicationError::UnexpectedCommand);
                },
            }
            i = i + 1;
        }
        assert(responses@.subrange(0, responses@.len() as int) =~= responses@);
        Ok(lines)
    }

    /// The own client's name followed by the names among collected list
    /// answers. An answer of another kind is a protocol error.
    pub fn list_clients(own_name: String, responses: Vec<TaskMessage<H>>) -> (r: Result<
        Vec<String>,
        CommunicationError,
    >)
        ensures
            match r {
                Ok(names) => match client_names(responses@) {
                    Some(others) => strings_view(names@) == seq![own_name@] + others,
                    None => false,
                },
                Err(e) => client_names(responses@) is None && e
                    == CommunicationError::UnexpectedCommand,
            },
    {
        let ghost own = own_name@;
        let mut names: Vec<String> = Vec::new();
        names.push(own_name);
        let mut i: usize = 0;
        assert(strings_view(names@) =~= seq![own]);
        while i < responses.len()
            invariant
                i <= responses@.len(),
                client_names(responses@.subrange(0, i as int)) matches Some(others) && strings_view(names@) == seq![own] + others,
            decreases responses@.len() - i,
        {
            let ghost next = responses@.subrange(0, i + 1);
            assert(next.drop_last() =~= responses@.subrange(0, i as int));
            match &responses[i] {
                TaskMessage::ListClientsResponse(name) => {
                    let n = name.clone();
                    proof {
                        names@.lemma_push_map_commute(|s: String| s@, n);
                    }
                    names.push(n);
                    assert(strings_view(names@) =~= seq![own] + client_names(next)->0);
                },
                _ => {
                    proof {
                        lemma_client_names_none_stays(responses@, i + 1);
                    }
                    return Err(CommunicationError::UnexpectedCommand);
                },
            }
            i = i + 1;
        }
        assert(responses@.subrange(0, responses@.len() as int) =~= responses@);
        Ok(names)
    }
}

proof fn lemma_other_ids<H>(tasks: Seq<(usize, H)>, sender: usize)
    ensures
        forall|x: usize| #[trigger]
            other_ids(tasks, sender).contains(x) <==> (registered(tasks, x) && x != sender),
        ids_unique(tasks) ==> other_ids(tasks, sender).no_duplicates(),
    decreases tasks.len(),
{
    if tasks.len() > 0 {
        let front = tasks.drop_last();
        lemma_other_ids(front, sender);
        let t = other_ids(tasks, sender);
        let f = other_ids(front, sender);
        assert forall|x: usize| #[trigger] t.contains(x) <==> (registered(tasks, x) && x != sender) by {
            let last = tasks[tasks.len() - 1];
            if t.contains(x) {
                let k = choose|k: int| 0 <= k < t.len() && t[k] == x;
                if k < f.len() {
                    assert(t[k] == f[k]);
                    assert(f.contains(x));
                    let m = choose|m: int| 0 <= m < front.len() && front[m].0 == x;
                    assert(tasks[m] == front[m]);
                } else {
                    assert(last.0 != sender && x == last.0);
                }
            }
            if registered(tasks, x) && x != sender {
                let k = choose|k: int| 0 <= k < tasks.len() && tasks[k].0 == x;
                if k < front.len() {
                    assert(front[k] == tasks[k]);
                    assert(registered(front, x));
                    assert(f.contains(x));
                    let m = choose|m: int| 0 <= m < f.len() && f[m] == x;
                    assert(t[m] == f[m]);
                } else {
                    assert(t[t.len() - 1] == x);
                }
            }
        }
        if ids_unique(tasks) {
            assert(ids_unique(front)) by {
                assert forall|i: int, j: int| 0 <= i < j < front.len() implies front[i].0 != front[j].0 by {
                    assert(front[i] == tasks[i]);
                    assert(front[j] == tasks[j]);
                }
            }
            if tasks.last().0 != sender {
                assert(!registered(front, tasks.last().0)) by {
                    if registered(front, tasks.last().0) {
                        let k = choose|k: int| 0 <= k < front.len() && front[k].0 == tasks.last().0;
                        assert(tasks[k].0 == tasks[tasks.len() - 1].0);
                    }
                }
                assert forall|i: int, j: int| 0 <= i < t.len() && 0 <= j < t.len() && i != j implies t[i] != t[j] by {
                    if i < f.len() && j < f.len() {
                        assert(t[i] == f[i] && t[j] == f[j]);
                    } else if i < f.len() {
                        assert(t[i] == f[i]);
                        assert(f.contains(f[i]));
                    } else {
                        assert(t[j] == f[j]);
                        assert(f.contains(f[j]));
                    }
                }
            }
        }
    }
}

/// A refresh of every client, broadcast by handler `sender`, reaches each
/// other registered handler exactly once, and not the sender.
pub proof fn lemma_refresh_all_reaches_each_peer_once<H>(tasks: Seq<(usize, H)>, sender: usize)
    requires
        ids_unique(tasks),
    ensures
        !other_ids(tasks, sender).contains(sender),
        forall|x: usize| registered(tasks, x) && x != sender ==> #[trigger] other_ids(tasks, sender).contains(x),
        other_ids(tasks, sender).no_duplicates(),
{
    lemma_other_ids(tasks, sender);
}

/// A refresh by name, broadcast by handler `sender`, makes exactly one handler
/// refresh its client: handler `w`, whose client carries the name, provided
/// that client names are distinct and `w` is not the sender. `names` gives the
/// client name held by each registered handler.
pub proof fn lemma_refresh_by_name_reaches_one<H>(
    tasks: Seq<(usize, H)>,
    names: Map<usize, Option<Seq<char>>>,
    sender: usize,
    target: Seq<char>,
    w: usize,
)
    requires
        ids_unique(tasks),
        forall|i: int| 0 <= i < tasks.len() ==> names.dom().contains(#[trigger] tasks[i].0),
        forall|a: usize, b: usize|
            names.dom().contains(a) && names.dom().contains(b) && a != b && names[a] is Some
                ==> names[a] != names[b],
        registered(tasks, w),
        w != sender,
        names[w] == Some(target),
    ensures
        other_ids(tasks, sender).contains(w),
        other_ids(tasks, sender).no_duplicates(),
        forall|i: int|
            0 <= i < other_ids(tasks, sender).len() ==> (names[#[trigger] other_ids(tasks, sender)[i]]
                == Some(target) <==> other_ids(tasks, sender)[i] == w),
{
    lemma_other_ids(tasks, sender);
    let t = other_ids(tasks, sender);
    assert forall|i: int|
        0 <= i < t.len() implies (names[#[trigger] t[i]] == Some(target) <==> t[i] == w) by {
        assert(t.contains(t[i]));
        let k = choose|k: int| 0 <= k < tasks.len() && tasks[k].0 == t[i];
        assert(names.dom().contains(tasks[k].0));
        let k2 = choose|k: int| 0 <= k < tasks.len() && tasks[k].0 == w;
        assert(names.dom().contains(tasks[k2].0));
    }
}

/// Whether a message is an answer to a request.
pub open spec fn is_answer<H>(m: TaskMessage<H>) -> bool {
    m is ReadMessageResponse || m is ListClientsResponse
}

/// The answers gathered after a broadcast of a request to `expected` handlers.
/// A handler that went away never answers, so the gathering also ends at a
/// deadline, with what has arrived.
pub struct Collection<H> {
    expected: usize,
    answers: Vec<TaskMessage<H>>,
}

impl<H> Collection<H> {
    pub closed spec fn expected(&self) -> nat {
        self.expected as nat
    }

    pub closed spec fn answers(&self) -> Seq<TaskMessage<H>> {
        self.answers@
    }

    /// Nothing gathered yet from the `expected` handlers asked.
    pub fn new(expected: usize) -> (r: Self)
        ensures
            r.expected() == expected,
            r.answers().len() == 0,
    {
        Collection { expected, answers: Vec::new() }
    }

    /// Whether every handler asked has answered.
    pub fn is_complete(&self) -> (r: bool)
        ensures
            r == (self.answers().len() >= self.expected()),
    {
        self.answers.len() >= self.expected
    }

    /// Offers a message that arrived while gathering: an answer is kept; any
    /// other message is handed back, to be handled as usual.
    pub fn offer(&mut self, message: TaskMessage<H>) -> (r: Option<TaskMessage<H>>)
        ensures
            final(self).expected() == old(self).expected(),
            is_answer(message) ==> r is None && final(self).answers() == old(self).answers().push(
                message,
            ),
            !is_answer(message) ==> r == Some(message) && final(self).answers() == old(
                self,
            ).answers(),
    {
        match message {
            TaskMessage::ReadMessageResponse(_, _) | TaskMessage::ListClientsResponse(_) => {
                self.answers.push(message);
                None
            },
            _ => Some(message),
        }
    }

    /// The answers gathered, in the order they arrived.
    pub fn into_answers(self) -> (r: Vec<TaskMessage<H>>)
        ensures
            r@ == self.answers(),
    {
        self.answers
    }
}

} // verus!

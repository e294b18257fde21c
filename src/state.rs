//! The mirror of the remote runtime's tasks and functions.
//!
//! Tasks live in slots that are never reused: a dependency edge names the slot of the task it
//! points to, so an edge to a removed task resolves to nothing, and never to a later task.
use vstd::prelude::*;
use vstd::string::{StringExecFns, StringExecFnsIsAscii};
use vstd::utf8::{encode_utf8, is_ascii_chars};
use crate::text::{decimal, decimal_string, trim_of, trim_str};

verus! {

/// A named label that tasks may carry; the name ends with a NUL byte.
#[derive(Debug)]
pub struct Function {
    pub id: u64,
    pub name: String,
}

/// A function as plain values.
pub struct FunctionView {
    pub id: u64,
    pub name: Seq<char>,
}

impl View for Function {
    type V = FunctionView;

    open spec fn view(&self) -> FunctionView {
        FunctionView { id: self.id, name: self.name@ }
    }
}

/// One unit of work reported by the runtime.
#[derive(Debug)]
pub struct Task {
    id: u64,
    thread_id: u64,
    function: Option<u64>,
    is_critical: bool,
    parents: Vec<usize>,
    children: Vec<usize>,
}

/// A task as plain values; `parents` and `children` hold slot numbers.
pub struct TaskView {
    pub id: u64,
    pub thread_id: u64,
    pub function: Option<u64>,
    pub is_critical: bool,
    pub parents: Seq<usize>,
    pub children: Seq<usize>,
}

impl View for Task {
    type V = TaskView;

    closed spec fn view(&self) -> TaskView {
        TaskView {
            id: self.id,
            thread_id: self.thread_id,
            function: self.function,
            is_critical: self.is_critical,
            parents: self.parents@,
            children: self.children@,
        }
    }
}

/// Why the store refused a change.
#[derive(Debug, Clone, Copy, PartialEq, Eq, Structural)]
pub enum GraphError {
    UnknownFunction(u64),
    DuplicateTask(u64),
    TaskNotFound(u64),
    SelfDependency(u64),
    DuplicateDependency(u64, u64),
}

/// The state of the observed runtime: its two start-up latches, its tasks and its functions.
#[derive(Debug)]
pub struct AppState {
    pub is_pre_init: bool,
    pub is_init: bool,
    slots: Vec<Option<Task>>,
    functions: Vec<Function>,
}

/// The store as plain values: each slot holds a live task or the trace of a removed one.
pub struct StoreView {
    pub is_pre_init: bool,
    pub is_init: bool,
    pub slots: Seq<Option<TaskView>>,
    pub functions: Seq<FunctionView>,
}

pub open spec fn slot_view(o: Option<Task>) -> Option<TaskView> {
    match o {
        Some(t) => Some(t@),
        None => None,
    }
}

impl View for AppState {
    type V = StoreView;

    closed spec fn view(&self) -> StoreView {
        StoreView {
            is_pre_init: self.is_pre_init,
            is_init: self.is_init,
            slots: self.slots@.map_values(|o: Option<Task>| slot_view(o)),
            functions: self.functions@.map_values(|f: Function| f@),
        }
    }
}

/// Slot `i` of `slots` holds the live task `id`.
pub open spec fn holds(slots: Seq<Option<TaskView>>, i: int, id: u64) -> bool {
    0 <= i < slots.len() && slots[i] is Some && slots[i]->Some_0.id == id
}

/// The task in slot `r`, if that slot exists and its task is live.
pub open spec fn resolve(slots: Seq<Option<TaskView>>, r: usize) -> Option<TaskView> {
    if r < slots.len() {
        slots[r as int]
    } else {
        None
    }
}

/// The ids of the live tasks that `refs` point to, in order.
pub open spec fn resolved_ids(slots: Seq<Option<TaskView>>, refs: Seq<usize>) -> Seq<u64>
    decreases refs.len(),
{
    if refs.len() == 0 {
        seq![]
    } else {
        let rest = resolved_ids(slots, refs.drop_last());
        match resolve(slots, refs.last()) {
            Some(t) => rest.push(t.id),
            None => rest,
        }
    }
}

/// The ids of the live tasks among the first `n` slots, in order.
pub open spec fn live_ids(slots: Seq<Option<TaskView>>, n: int) -> Seq<u64>
    decreases n,
{
    if n <= 0 {
        seq![]
    } else {
        match slots[n - 1] {
            Some(t) => live_ids(slots, n - 1).push(t.id),
            None => live_ids(slots, n - 1),
        }
    }
}

/// The largest id of a live task among the first `n` slots, 0 when there is none.
pub open spec fn max_id(slots: Seq<Option<TaskView>>, n: int) -> u64
    decreases n,
{
    if n <= 0 {
        0
    } else {
        let rest = max_id(slots, n - 1);
        match slots[n - 1] {
            Some(t) => if t.id > rest {
                t.id
            } else {
                rest
            },
            None => rest,
        }
    }
}

/// The (parent, child) id pairs of the edges of the live tasks among the first `n` slots whose
/// child is live, in slot order and then in the order the edges were added.
pub open spec fn dependency_pairs(slots: Seq<Option<TaskView>>, n: int) -> Seq<(u64, u64)>
    decreases n,
{
    if n <= 0 {
        seq![]
    } else {
        match slots[n - 1] {
            Some(t) => dependency_pairs(slots, n - 1) + resolved_ids(slots, t.children).map_values(
                |c: u64| (t.id, c),
            ),
            None => dependency_pairs(slots, n - 1),
        }
    }
}

/// The name a function gets when it is registered without one.
pub open spec fn default_name(id: u64) -> Seq<char> {
    "default_function_"@ + decimal(id as nat) + seq!['\0']
}

impl StoreView {
    /// Task ids are unique among live tasks, and every edge names an existing slot.
    pub open spec fn wf(self) -> bool {
        &&& self.slots.len() <= usize::MAX
        &&& forall|i: int, j: int|
            0 <= i < self.slots.len() && 0 <= j < self.slots.len() && i != j && self.slots[i] is Some
                && self.slots[j] is Some ==> #[trigger] self.slots[i]->Some_0.id
                != #[trigger] self.slots[j]->Some_0.id
        &&& forall|i: int, k: int|
            0 <= i < self.slots.len() && self.slots[i] is Some && 0 <= k
                < self.slots[i]->Some_0.children.len() ==> #[trigger] self.slots[i]->Some_0.children[k]
                < self.slots.len()
        &&& forall|i: int, k: int|
            0 <= i < self.slots.len() && self.slots[i] is Some && 0 <= k
                < self.slots[i]->Some_0.parents.len() ==> #[trigger] self.slots[i]->Some_0.parents[k]
                < self.slots.len()
    }

    pub open spec fn has_task(self, id: u64) -> bool {
        exists|i: int| holds(self.slots, i, id)
    }

    /// The slot of the live task `id`.
    pub open spec fn slot_of(self, id: u64) -> int {
        choose|i: int| holds(self.slots, i, id)
    }

    /// The live task `id`.
    pub open spec fn task(self, id: u64) -> TaskView {
        self.slots[self.slot_of(id)]->Some_0
    }

    pub open spec fn has_function(self, fid: u64) -> bool {
        exists|k: int| 0 <= k < self.functions.len() && #[trigger] self.functions[k].id == fid
    }

    /// The ids of the live tasks, in creation order.
    pub open spec fn task_ids(self) -> Seq<u64> {
        live_ids(self.slots, self.slots.len() as int)
    }

    /// The ids of the live children of the live task `id`.
    pub open spec fn children_ids(self, id: u64) -> Seq<u64> {
        resolved_ids(self.slots, self.task(id).children)
    }

    /// The ids of the live parents of the live task `id`.
    pub open spec fn parent_ids(self, id: u64) -> Seq<u64> {
        resolved_ids(self.slots, self.task(id).parents)
    }

    /// The id the next locally created task gets: one more than the largest id in use.
    pub open spec fn next_task_id(self) -> Option<u64> {
        let m = max_id(self.slots, self.slots.len() as int);
        if m == u64::MAX {
            None
        } else {
            Some((m + 1) as u64)
        }
    }

    pub open spec fn with_slots(self, slots: Seq<Option<TaskView>>) -> StoreView {
        StoreView { slots, ..self }
    }

    /// The store after `create_task`, and what it returns.
    pub open spec fn create_task_spec(
        self,
        id: u64,
        is_critical: bool,
        function_id: Option<u64>,
        thread_id: u64,
    ) -> (StoreView, Result<(), GraphError>) {
        if function_id is Some && !self.has_function(function_id->Some_0) {
            (self, Err(GraphError::UnknownFunction(function_id->Some_0)))
        } else if self.has_task(id) {
            (self, Err(GraphError::DuplicateTask(id)))
        } else {
            (
                self.with_slots(
                    self.slots.push(
                        Some(
                            TaskView {
                                id,
                                thread_id,
                                function: function_id,
                                is_critical,
                                parents: seq![],
                                children: seq![],
                            },
                        ),
                    ),
                ),
                Ok(()),
            )
        }
    }

    /// The store after `delete_task`, and what it returns.
    pub open spec fn delete_task_spec(self, id: u64) -> (StoreView, Option<()>) {
        if self.has_task(id) {
            (self.with_slots(self.slots.update(self.slot_of(id), None)), Some(()))
        } else {
            (self, None)
        }
    }

    /// The store after `add_dependency`, and what it returns.
    pub open spec fn add_dependency_spec(self, parent_id: u64, child_id: u64) -> (
        StoreView,
        Result<(), GraphError>,
    ) {
        if !self.has_task(parent_id) {
            (self, Err(GraphError::TaskNotFound(parent_id)))
        } else if !self.has_task(child_id) {
            (self, Err(GraphError::TaskNotFound(child_id)))
        } else if parent_id == child_id {
            (self, Err(GraphError::SelfDependency(parent_id)))
        } else {
            let ip = self.slot_of(parent_id);
            let ic = self.slot_of(child_id);
            let p = self.task(parent_id);
            let c = self.task(child_id);
            if p.children.contains(ic as usize) {
                (self, Err(GraphError::DuplicateDependency(parent_id, child_id)))
            } else {
                (
                    self.with_slots(
                        self.slots.update(
                            ip,
                            Some(TaskView { children: p.children.push(ic as usize), ..p }),
                        ).update(ic, Some(TaskView { parents: c.parents.push(ip as usize), ..c })),
                    ),
                    Ok(()),
                )
            }
        }
    }

    /// The store after `create_function` with a name that trims to `trimmed`, and the
    /// function it returns.
    pub open spec fn create_function_spec(self, id: u64, trimmed: Seq<char>) -> (
        StoreView,
        Option<FunctionView>,
    ) {
        if !is_ascii_chars(trimmed) {
            (self, None)
        } else {
            let f = FunctionView {
                id,
                name: if trimmed.len() == 0 {
                    default_name(id)
                } else {
                    trimmed + seq!['\0']
                },
            };
            (StoreView { functions: self.functions.push(f), ..self }, Some(f))
        }
    }
}

/// Whether `v` holds `x`.
fn contains_ref(v: &Vec<usize>, x: usize) -> (r: bool)
    ensures
        r == v@.contains(x),
{
    let mut k: usize = 0;
    while k < v.len()
        invariant
            k <= v@.len(),
            forall|j: int| 0 <= j < k ==> v@[j] != x,
        decreases v@.len() - k,
    {
        if v[k] == x {
            return true;
        }
        k = k + 1;
    }
    false
}

/// With unique ids, the slot holding a task is the one `slot_of` names.
proof fn lemma_slot_of(s: StoreView, i: int, id: u64)
    requires
        s.wf(),
        holds(s.slots, i, id),
    ensures
        s.slot_of(id) == i,
        s.has_task(id),
        s.task(id) == s.slots[i]->Some_0,
{
    let j = s.slot_of(id);
    assert(holds(s.slots, j, id));
    if i != j {
        assert(s.slots[i]->Some_0.id != s.slots[j]->Some_0.id);
    }
}

/// Decimal digits are ASCII.
proof fn lemma_decimal_ascii(n: nat)
    ensures
        is_ascii_chars(decimal(n)),
    decreases n,
{
    if n >= 10 {
        lemma_decimal_ascii(n / 10);
        let d = decimal(n / 10);
        assert forall|i: int| 0 <= i < decimal(n).len() implies '\0' <= #[trigger] decimal(n)[i]
            <= '\u{7f}' by {
            if i < d.len() {
                assert(decimal(n)[i] == d[i]);
            }
        }
    }
}

/// The plain values of a function that may be absent.
pub open spec fn function_view(f: Option<Function>) -> Option<FunctionView> {
    match f {
        Some(f) => Some(f@),
        None => None,
    }
}

impl Function {
    /// A function with the given name, NUL-terminated; fails when the name is not ASCII.
    pub fn new(id: u64, name: String) -> (r: Result<Function, &'static str>)
        ensures
            r is Ok == is_ascii_chars(name@),
            r is Ok ==> r->Ok_0@ == (FunctionView { id, name: name@ + seq!['\0'] }),
            r is Err ==> r == Err::<Function, &'static str>("string contains non ascii characters"),
    {
        if !name.is_ascii() {
            return Err("string contains non ascii characters");
        }
        let mut name = name;
        // NUL-terminated, as the instrumentation library reads it
        name.append("\0");
        proof {
            reveal_strlit("\0");
            assert("\0"@ =~= seq!['\0']);
        }
        Ok(Function { id, name })
    }

    /// A function registered without a name.
    pub fn unnamed(id: u64) -> (r: Function)
        ensures
            r@ == (FunctionView { id, name: default_name(id) }),
    {
        let mut name = String::from_str("default_function_");
        let digits = decimal_string(id);
        name.append(digits.as_str());
        name.append("\0");
        proof {
            reveal_strlit("\0");
            assert("\0"@ =~= seq!['\0']);
        }
        Function { id, name }
    }

    /// The id and the NUL-terminated name's bytes, as the instrumentation library takes them.
    pub fn into_raw_parts(&self) -> (r: (u64, &[u8]))
        ensures
            r.0 == self.id,
            r.1@ == encode_utf8(self.name@),
    {
        (self.id, self.name.as_str().as_bytes())
    }
}

/// Adding an edge keeps ids unique and every edge naming an existing slot.
pub proof fn lemma_add_dependency_wf(s: StoreView, parent_id: u64, child_id: u64)
    requires
        s.wf(),
    ensures
        s.add_dependency_spec(parent_id, child_id).0.wf(),
{
    if s.has_task(parent_id) && s.has_task(child_id) && parent_id != child_id {
        let ip = s.slot_of(parent_id);
        let ic = s.slot_of(child_id);
        let p = s.task(parent_id);
        let c = s.task(child_id);
        if !p.children.contains(ic as usize) {
            let v = s.add_dependency_spec(parent_id, child_id).0;
            assert(holds(s.slots, ip, parent_id));
            assert(holds(s.slots, ic, child_id));
            assert forall|i: int, j: int|
                0 <= i < v.slots.len() && 0 <= j < v.slots.len() && i != j && v.slots[i] is Some
                    && v.slots[j] is Some implies #[trigger] v.slots[i]->Some_0.id
                != #[trigger] v.slots[j]->Some_0.id by {
                assert(s.slots[i] is Some && s.slots[j] is Some);
                assert(v.slots[i]->Some_0.id == s.slots[i]->Some_0.id);
                assert(v.slots[j]->Some_0.id == s.slots[j]->Some_0.id);
            }
            assert forall|i: int, k: int|
                0 <= i < v.slots.len() && v.slots[i] is Some && 0 <= k
                    < v.slots[i]->Some_0.children.len() implies #[trigger] v.slots[i]->Some_0.children[k]
                < v.slots.len() by {
                if i != ip && i != ic {
                    assert(v.slots[i] == s.slots[i]);
                } else if i == ip && k < p.children.len() {
                    assert(v.slots[i]->Some_0.children[k] == s.slots[i]->Some_0.children[k]);
                } else if i == ic {
                    assert(v.slots[i]->Some_0.children == s.slots[i]->Some_0.children);
                }
            }
            assert forall|i: int, k: int|
                0 <= i < v.slots.len() && v.slots[i] is Some && 0 <= k
                    < v.slots[i]->Some_0.parents.len() implies #[trigger] v.slots[i]->Some_0.parents[k]
                < v.slots.len() by {
                if i != ip && i != ic {
                    assert(v.slots[i] == s.slots[i]);
                } else if i == ic && k < c.parents.len() {
                    assert(v.slots[i]->Some_0.parents[k] == s.slots[i]->Some_0.parents[k]);
                } else if i == ip {
                    assert(v.slots[i]->Some_0.parents == s.slots[i]->Some_0.parents);
                }
            }
        }
    }
}

/// A live id among the resolved edges belongs to a live task.
proof fn lemma_resolved_is_live(slots: Seq<Option<TaskView>>, refs: Seq<usize>, v: u64)
    requires
        resolved_ids(slots, refs).contains(v),
    ensures
        exists|i: int| holds(slots, i, v),
    decreases refs.len(),
{
    if refs.len() > 0 {
        let rest = resolved_ids(slots, refs.drop_last());
        match resolve(slots, refs.last()) {
            Some(t) => {
                if rest.contains(v) {
                    lemma_resolved_is_live(slots, refs.drop_last(), v);
                } else {
                    let k = choose|k: int| 0 <= k < rest.push(t.id).len() && rest.push(t.id)[k] == v;
                    assert(k == rest.len());
                    assert(holds(slots, refs.last() as int, v));
                }
            },
            None => {
                lemma_resolved_is_live(slots, refs.drop_last(), v);
            },
        }
    }
}

/// Adding one more edge to a live task adds its id at the end of the resolved ids.
proof fn lemma_resolved_push(slots: Seq<Option<TaskView>>, refs: Seq<usize>, x: usize)
    requires
        (x as int) < slots.len(),
        slots[x as int] is Some,
    ensures
        resolved_ids(slots, refs.push(x)) == resolved_ids(slots, refs).push(
            slots[x as int]->Some_0.id,
        ),
        resolved_ids(slots, refs.push(x)).contains(slots[x as int]->Some_0.id),
{
    assert(refs.push(x).drop_last() =~= refs);
    let r = resolved_ids(slots, refs.push(x));
    assert(r[r.len() - 1] == slots[x as int]->Some_0.id);
}

/// Creating a task that names an unregistered function fails and leaves the store as it was.
pub proof fn lemma_unknown_function_rejected(
    s: StoreView,
    id: u64,
    is_critical: bool,
    function_id: u64,
    thread_id: u64,
)
    requires
        !s.has_function(function_id),
    ensures
        s.create_task_spec(id, is_critical, Some(function_id), thread_id) == (
            s,
            Err::<(), GraphError>(GraphError::UnknownFunction(function_id)),
        ),
{
}

/// Once an edge parent → child is added, a lookup shows the child among the parent's children
/// and the parent among the child's parents.
pub proof fn lemma_dependency_visible(s: StoreView, parent_id: u64, child_id: u64)
    requires
        s.wf(),
        s.add_dependency_spec(parent_id, child_id).1 is Ok,
    ensures
        s.add_dependency_spec(parent_id, child_id).0.children_ids(parent_id).contains(child_id),
        s.add_dependency_spec(parent_id, child_id).0.parent_ids(child_id).contains(parent_id),
{
    let t = s.add_dependency_spec(parent_id, child_id).0;
    let ip = s.slot_of(parent_id);
    let ic = s.slot_of(child_id);
    assert(holds(s.slots, ip, parent_id));
    assert(holds(s.slots, ic, child_id));
    let p = s.task(parent_id);
    let c = s.task(child_id);
    lemma_add_dependency_wf(s, parent_id, child_id);
    assert(ip != ic);
    assert(holds(t.slots, ip, parent_id));
    assert(holds(t.slots, ic, child_id));
    lemma_slot_of(t, ip, parent_id);
    lemma_slot_of(t, ic, child_id);
    assert(t.task(parent_id).children == p.children.push(ic as usize));
    assert(t.task(child_id).parents == c.parents.push(ip as usize));
    lemma_resolved_push(t.slots, p.children, ic as usize);
    lemma_resolved_push(t.slots, c.parents, ip as usize);
}

/// A task cannot depend on itself.
pub proof fn lemma_self_dependency_rejected(s: StoreView, id: u64)
    requires
        s.has_task(id),
    ensures
        s.add_dependency_spec(id, id) == (s, Err::<(), GraphError>(GraphError::SelfDependency(id))),
{
}

/// After a task is removed its id is gone, edges to it can no longer be added, and no edge
/// resolves to it any more.
pub proof fn lemma_deleted_task_absent(s: StoreView, id: u64, other: u64, refs: Seq<usize>)
    requires
        s.wf(),
        s.has_task(id),
    ensures
        s.delete_task_spec(id).1 == Some(()),
        !s.delete_task_spec(id).0.has_task(id),
        s.delete_task_spec(id).0.add_dependency_spec(id, other).1 == Err::<(), GraphError>(
            GraphError::TaskNotFound(id),
        ),
        s.delete_task_spec(id).0.add_dependency_spec(other, id).1 is Err,
        s.delete_task_spec(id).0.add_dependency_spec(other, id).1->Err_0 is TaskNotFound,
        !resolved_ids(s.delete_task_spec(id).0.slots, refs).contains(id),
{
    let t = s.delete_task_spec(id).0;
    let i = s.slot_of(id);
    assert(holds(s.slots, i, id));
    assert forall|j: int| !holds(t.slots, j, id) by {
        if holds(t.slots, j, id) {
            assert(j != i);
            assert(t.slots[j] == s.slots[j]);
        }
    }
    if resolved_ids(t.slots, refs).contains(id) {
        lemma_resolved_is_live(t.slots, refs, id);
    }
}

/// A name that is not ASCII once trimmed is refused, and no function is added.
pub proof fn lemma_non_ascii_name_rejected(s: StoreView, id: u64, trimmed: Seq<char>)
    requires
        !is_ascii_chars(trimmed),
    ensures
        s.create_function_spec(id, trimmed) == (s, None::<FunctionView>),
        s.create_function_spec(id, trimmed).0.functions.len() == s.functions.len(),
{
}

/// The task a successful `create_task` adds.
pub open spec fn new_task(id: u64, is_critical: bool, function_id: Option<u64>, thread_id: u64) -> TaskView {
    TaskView { id, thread_id, function: function_id, is_critical, parents: seq![], children: seq![] }
}

/// Creating a task makes its id live, as the task `new_task` describes, and leaves every other
/// live task as it was.
pub proof fn lemma_create_task_frame(
    s: StoreView,
    id: u64,
    is_critical: bool,
    function_id: Option<u64>,
    thread_id: u64,
)
    requires
        s.wf(),
        s.slots.len() < usize::MAX,
        s.create_task_spec(id, is_critical, function_id, thread_id).1 is Ok,
    ensures
        ({
            let t = s.create_task_spec(id, is_critical, function_id, thread_id).0;
            &&& t.wf()
            &&& forall|x: u64| #[trigger] t.has_task(x) <==> (s.has_task(x) || x == id)
            &&& t.task(id) == new_task(id, is_critical, function_id, thread_id)
            &&& forall|x: u64| s.has_task(x) ==> #[trigger] t.task(x) == s.task(x)
        }),
{
    let t = s.create_task_spec(id, is_critical, function_id, thread_id).0;
    let n = s.slots.len() as int;
    assert(t.slots == s.slots.push(Some(new_task(id, is_critical, function_id, thread_id))));
    assert forall|i: int, j: int|
        0 <= i < t.slots.len() && 0 <= j < t.slots.len() && i != j && t.slots[i] is Some
            && t.slots[j] is Some implies #[trigger] t.slots[i]->Some_0.id
        != #[trigger] t.slots[j]->Some_0.id by {
        if i == n {
            assert(!holds(s.slots, j, id));
        } else if j == n {
            assert(!holds(s.slots, i, id));
        }
    }
    assert forall|i: int, k: int|
        0 <= i < t.slots.len() && t.slots[i] is Some && 0 <= k
            < t.slots[i]->Some_0.children.len() implies #[trigger] t.slots[i]->Some_0.children[k]
        < t.slots.len() by {
        assert(i < n);
        assert(t.slots[i] == s.slots[i]);
    }
    assert forall|i: int, k: int|
        0 <= i < t.slots.len() && t.slots[i] is Some && 0 <= k
            < t.slots[i]->Some_0.parents.len() implies #[trigger] t.slots[i]->Some_0.parents[k]
        < t.slots.len() by {
        assert(i < n);
        assert(t.slots[i] == s.slots[i]);
    }
    assert(t.wf());
    assert(holds(t.slots, n, id));
    lemma_slot_of(t, n, id);
    assert forall|x: u64| #[trigger] t.has_task(x) <==> (s.has_task(x) || x == id) by {
        if s.has_task(x) {
            let i = s.slot_of(x);
            assert(holds(t.slots, i, x));
        }
        if t.has_task(x) && x != id {
            let j = t.slot_of(x);
            assert(holds(s.slots, j, x));
        }
    }
    assert forall|x: u64| s.has_task(x) implies #[trigger] t.task(x) == s.task(x) by {
        let i = s.slot_of(x);
        assert(holds(t.slots, i, x));
        lemma_slot_of(t, i, x);
    }
}

/// Removing a task makes its id absent and leaves every other live task as it was.
pub proof fn lemma_delete_task_frame(s: StoreView, id: u64)
    requires
        s.wf(),
        s.has_task(id),
    ensures
        ({
            let t = s.delete_task_spec(id).0;
            &&& t.wf()
            &&& forall|x: u64| #[trigger] t.has_task(x) <==> (s.has_task(x) && x != id)
            &&& forall|x: u64| s.has_task(x) && x != id ==> #[trigger] t.task(x) == s.task(x)
        }),
{
    let t = s.delete_task_spec(id).0;
    let k = s.slot_of(id);
    assert(holds(s.slots, k, id));
    assert(t.slots == s.slots.update(k, None));
    assert forall|i: int, j: int|
        0 <= i < t.slots.len() && 0 <= j < t.slots.len() && i != j && t.slots[i] is Some
            && t.slots[j] is Some implies #[trigger] t.slots[i]->Some_0.id
        != #[trigger] t.slots[j]->Some_0.id by {
        assert(t.slots[i] == s.slots[i] && t.slots[j] == s.slots[j]);
    }
    assert forall|i: int, m: int|
        0 <= i < t.slots.len() && t.slots[i] is Some && 0 <= m
            < t.slots[i]->Some_0.children.len() implies #[trigger] t.slots[i]->Some_0.children[m]
        < t.slots.len() by {
        assert(t.slots[i] == s.slots[i]);
    }
    assert forall|i: int, m: int|
        0 <= i < t.slots.len() && t.slots[i] is Some && 0 <= m
            < t.slots[i]->Some_0.parents.len() implies #[trigger] t.slots[i]->Some_0.parents[m]
        < t.slots.len() by {
        assert(t.slots[i] == s.slots[i]);
    }
    assert(t.wf());
    assert forall|x: u64| #[trigger] t.has_task(x) <==> (s.has_task(x) && x != id) by {
        if s.has_task(x) && x != id {
            let i = s.slot_of(x);
            assert(holds(t.slots, i, x));
        }
        if t.has_task(x) {
            let j = t.slot_of(x);
            assert(holds(s.slots, j, x));
            if x == id {
                assert(j != k);
            }
        }
    }
    assert forall|x: u64| s.has_task(x) && x != id implies #[trigger] t.task(x) == s.task(x) by {
        let i = s.slot_of(x);
        assert(holds(t.slots, i, x));
        lemma_slot_of(t, i, x);
    }
}

/// Adding an edge changes no live id, and no task other than its two ends.
pub proof fn lemma_add_dependency_frame(s: StoreView, parent_id: u64, child_id: u64)
    requires
        s.wf(),
    ensures
        ({
            let t = s.add_dependency_spec(parent_id, child_id).0;
            &&& forall|x: u64| #[trigger] t.has_task(x) == s.has_task(x)
            &&& forall|x: u64|
                s.has_task(x) && x != parent_id && x != child_id ==> #[trigger] t.task(x)
                    == s.task(x)
        }),
{
    let t = s.add_dependency_spec(parent_id, child_id).0;
    lemma_add_dependency_wf(s, parent_id, child_id);
    if s.add_dependency_spec(parent_id, child_id).1 is Ok {
        let ip = s.slot_of(parent_id);
        let ic = s.slot_of(child_id);
        assert(holds(s.slots, ip, parent_id));
        assert(holds(s.slots, ic, child_id));
        assert forall|i: int, x: u64| holds(t.slots, i, x) == holds(s.slots, i, x) by {}
        assert forall|x: u64| #[trigger] t.has_task(x) == s.has_task(x) by {
            if s.has_task(x) {
                assert(holds(t.slots, s.slot_of(x), x));
            }
            if t.has_task(x) {
                assert(holds(s.slots, t.slot_of(x), x));
            }
        }
        assert forall|x: u64|
            s.has_task(x) && x != parent_id && x != child_id implies #[trigger] t.task(x)
            == s.task(x) by {
            let i = s.slot_of(x);
            assert(holds(s.slots, i, x));
            assert(i != ip && i != ic);
            assert(holds(t.slots, i, x));
            lemma_slot_of(t, i, x);
        }
    }
}

impl Task {
    /// The values the instrumentation library takes for a task: its id, its function's id (its
    /// own id when it has no function), 1 when it is critical and 0 otherwise, and its thread.
    pub fn into_raw_parts(&self) -> (r: (u64, u64, u64, u64))
        ensures
            r == (
                self@.id,
                match self@.function {
                    Some(f) => f,
                    None => self@.id,
                },
                if self@.is_critical {
                    1u64
                } else {
                    0u64
                },
                self@.thread_id,
            ),
    {
        let function_id = match self.function {
            Some(f) => f,
            None => self.id,
        };
        (self.id, function_id, if self.is_critical {
            1
        } else {
            0
        }, self.thread_id)
    }

    pub fn get_id(&self) -> (r: u64)
        ensures
            r == self@.id,
    {
        self.id
    }

    pub fn thread_id(&self) -> (r: u64)
        ensures
            r == self@.thread_id,
    {
        self.thread_id
    }

    pub fn function_id(&self) -> (r: Option<u64>)
        ensures
            r == self@.function,
    {
        self.function
    }

    pub fn is_critical(&self) -> (r: bool)
        ensures
            r == self@.is_critical,
    {
        self.is_critical
    }
}

impl AppState {
    /// An empty store with both latches open.
    pub fn new() -> (r: Self)
        ensures
            r@.wf(),
            !r@.is_pre_init,
            !r@.is_init,
            r@.slots.len() == 0,
            r@.functions.len() == 0,
    {
        let r = AppState {
            is_pre_init: false,
            is_init: false,
            slots: Vec::new(),
            functions: Vec::new(),
        };
        assert(r@.slots =~= Seq::<Option<TaskView>>::empty());
        r
    }

    /// Whether the pre-initialisation latch is closed.
    pub fn is_pre_init(&self) -> (r: bool)
        ensures
            r == self@.is_pre_init,
    {
        self.is_pre_init
    }

    /// Whether the initialisation latch is closed.
    pub fn is_init(&self) -> (r: bool)
        ensures
            r == self@.is_init,
    {
        self.is_init
    }

    /// Closes the pre-initialisation latch.
    pub fn set_pre_init(&mut self)
        ensures
            final(self)@ == (StoreView { is_pre_init: true, ..old(self)@ }),
    {
        self.is_pre_init = true;
    }

    /// Closes the initialisation latch.
    pub fn set_init(&mut self)
        ensures
            final(self)@ == (StoreView { is_init: true, ..old(self)@ }),
    {
        self.is_init = true;
    }

    /// The slot of the live task `id`.
    fn find_slot(&self, id: u64) -> (r: Option<usize>)
        ensures
            match r {
                Some(i) => holds(self@.slots, i as int, id),
                None => !self@.has_task(id),
            },
    {
        let mut i: usize = 0;
        while i < self.slots.len()
            invariant
                i <= self.slots@.len(),
                self@.slots.len() == self.slots@.len(),
                forall|j: int| 0 <= j < i ==> !holds(self@.slots, j, id),
            decreases self.slots@.len() - i,
        {
            assert(self@.slots[i as int] == slot_view(self.slots@[i as int]));
            match &self.slots[i] {
                Some(t) => {
                    if t.id == id {
                        return Some(i);
                    }
                },
                None => {},
            }
            i = i + 1;
        }
        None
    }

    /// Whether the function `fid` was registered.
    fn find_function(&self, fid: u64) -> (r: bool)
        ensures
            r == self@.has_function(fid),
    {
        let mut k: usize = 0;
        while k < self.functions.len()
            invariant
                k <= self.functions@.len(),
                self@.functions.len() == self.functions@.len(),
                forall|j: int| 0 <= j < k ==> self@.functions[j].id != fid,
            decreases self.functions@.len() - k,
        {
            assert(self@.functions[k as int] == self.functions@[k as int]@);
            if self.functions[k].id == fid {
                assert(self@.functions[k as int].id == fid);
                return true;
            }
            k = k + 1;
        }
        false
    }

    pub fn does_task_exist(&self, id: u64) -> (r: bool)
        ensures
            r == self@.has_task(id),
    {
        self.find_slot(id).is_some()
    }

    pub fn get_task(&self, id: u64) -> (r: Option<&Task>)
        requires
            self@.wf(),
        ensures
            r is Some == self@.has_task(id),
            r is Some ==> r->Some_0@ == self@.task(id),
    {
        match self.find_slot(id) {
            Some(i) => {
                proof {
                    lemma_slot_of(self@, i as int, id);
                }
                assert(self@.slots[i as int] == slot_view(self.slots@[i as int]));
                match &self.slots[i] {
                    Some(t) => Some(t),
                    None => None,
                }
            },
            None => None,
        }
    }

    /// The id for a task created here: one more than the largest id in use, 1 when there is no
    /// task, and none when the largest id is `u64::MAX`.
    pub fn create_task_id(&self) -> (r: Option<u64>)
        ensures
            r == self@.next_task_id(),
    {
        let mut m: u64 = 0;
        let mut i: usize = 0;
        while i < self.slots.len()
            invariant
                i <= self.slots@.len(),
                self@.slots.len() == self.slots@.len(),
                m == max_id(self@.slots, i as int),
            decreases self.slots@.len() - i,
        {
            assert(self@.slots[i as int] == slot_view(self.slots@[i as int]));
            match &self.slots[i] {
                Some(t) => {
                    if t.id > m {
                        m = t.id;
                    }
                },
                None => {},
            }
            i = i + 1;
        }
        if m == u64::MAX {
            None
        } else {
            Some(m + 1)
        }
    }

    /// The id for a function registered here: the number of functions so far.
    pub fn create_function_id(&self) -> (r: u64)
        ensures
            r == self@.functions.len() as u64,
    {
        self.functions.len() as u64
    }

    /// Creates a task. Fails without a change when `function_id` names no registered function,
    /// or when a live task already has the id.
    pub fn create_task(
        &mut self,
        id: u64,
        is_critical: bool,
        function_id: Option<u64>,
        thread_id: u64,
    ) -> (r: Result<(), GraphError>)
        requires
            old(self)@.wf(),
        ensures
            final(self)@.wf(),
            (final(self)@, r) == old(self)@.create_task_spec(
                id,
                is_critical,
                function_id,
                thread_id,
            ),
            r is Ok ==> forall|x: u64| #[trigger]
                final(self)@.has_task(x) <==> (old(self)@.has_task(x) || x == id),
            r is Ok ==> final(self)@.task(id) == new_task(id, is_critical, function_id, thread_id),
            r is Ok ==> forall|x: u64|
                old(self)@.has_task(x) ==> #[trigger] final(self)@.task(x) == old(self)@.task(x),
    {
        match function_id {
            Some(fid) => {
                if !self.find_function(fid) {
                    return Err(GraphError::UnknownFunction(fid));
                }
            },
            None => {},
        }
        if self.find_slot(id).is_some() {
            return Err(GraphError::DuplicateTask(id));
        }
        let task = Task {
            id,
            thread_id,
            function: function_id,
            is_critical,
            parents: Vec::new(),
            children: Vec::new(),
        };
        let ghost old_view = self@;
        self.slots.push(Some(task));
        assert(self.slots@.len() == self.slots.len());
        proof {
            let new_slot = Some(
                TaskView {
                    id,
                    thread_id,
                    function: function_id,
                    is_critical,
                    parents: seq![],
                    children: seq![],
                },
            );
            assert(slot_view(Some(task)) =~= new_slot);
            assert(new_slot == Some(new_task(id, is_critical, function_id, thread_id)));
            assert(self@.slots =~= old_view.slots.push(new_slot));
            assert(self@ =~= old_view.with_slots(old_view.slots.push(new_slot)));
            lemma_create_task_frame(old_view, id, is_critical, function_id, thread_id);
        }
        Ok(())
    }

    /// Removes the task `task_id`; edges that point to it are left to resolve to nothing.
    pub fn delete_task(&mut self, task_id: u64) -> (r: Option<()>)
        requires
            old(self)@.wf(),
        ensures
            final(self)@.wf(),
            (final(self)@, r) == old(self)@.delete_task_spec(task_id),
            forall|x: u64| #[trigger]
                final(self)@.has_task(x) <==> (old(self)@.has_task(x) && x != task_id),
            forall|x: u64|
                old(self)@.has_task(x) && x != task_id
                    ==> #[trigger] final(self)@.task(x) == old(self)@.task(x),
    {
        match self.find_slot(task_id) {
            Some(i) => {
                proof {
                    lemma_slot_of(self@, i as int, task_id);
                }
                let ghost old_view = self@;
                self.slots.set(i, None);
                assert(self@.slots =~= old_view.slots.update(i as int, None));
                assert(self@ =~= old_view.with_slots(old_view.slots.update(i as int, None)));
                proof {
                    lemma_delete_task_frame(old_view, task_id);
                }
                Some(())
            },
            None => None,
        }
    }

    /// Records the edge parent → child in the parent's children and the child's parents. Fails
    /// without a change when either task is missing, when they are the same task, or when the
    /// edge is already there.
    pub fn add_dependency(&mut self, parent_id: u64, child_id: u64) -> (r: Result<(), GraphError>)
        requires
            old(self)@.wf(),
        ensures
            final(self)@.wf(),
            (final(self)@, r) == old(self)@.add_dependency_spec(parent_id, child_id),
            forall|x: u64| #[trigger] final(self)@.has_task(x) == old(self)@.has_task(x),
            forall|x: u64|
                old(self)@.has_task(x) && x != parent_id && x != child_id
                    ==> #[trigger] final(self)@.task(x) == old(self)@.task(x),
    {
        let ip = match self.find_slot(parent_id) {
            Some(i) => i,
            None => return Err(GraphError::TaskNotFound(parent_id)),
        };
        let ic = match self.find_slot(child_id) {
            Some(i) => i,
            None => return Err(GraphError::TaskNotFound(child_id)),
        };
        if parent_id == child_id {
            return Err(GraphError::SelfDependency(parent_id));
        }
        let ghost old_view = self@;
        proof {
            lemma_slot_of(self@, ip as int, parent_id);
            lemma_slot_of(self@, ic as int, child_id);
        }
        assert(self@.slots[ip as int] == slot_view(self.slots@[ip as int]));
        assert(self@.slots[ic as int] == slot_view(self.slots@[ic as int]));
        let duplicate = match &self.slots[ip] {
            Some(t) => contains_ref(&t.children, ic),
            None => false,
        };
        if duplicate {
            return Err(GraphError::DuplicateDependency(parent_id, child_id));
        }
        let ghost p = old_view.task(parent_id);
        let ghost c = old_view.task(child_id);
        match &mut self.slots[ip] {
            Some(t) => t.children.push(ic),
            None => {},
        }
        proof {
            assert(self@.slots =~= old_view.slots.update(
                ip as int,
                Some(TaskView { children: p.children.push(ic), ..p }),
            ));
        }
        assert(self@.slots[ic as int] == slot_view(self.slots@[ic as int]));
        match &mut self.slots[ic] {
            Some(t) => t.parents.push(ip),
            None => {},
        }
        proof {
            let new_slots = old_view.slots.update(
                ip as int,
                Some(TaskView { children: p.children.push(ic), ..p }),
            ).update(ic as int, Some(TaskView { parents: c.parents.push(ip), ..c }));
            assert(self@.slots =~= new_slots);
            assert(self@ =~= old_view.with_slots(new_slots));
            lemma_add_dependency_wf(old_view, parent_id, child_id);
            lemma_add_dependency_frame(old_view, parent_id, child_id);
        }
        Ok(())
    }

    /// The ids of the live tasks that the slot numbers in `refs` point to.
    fn resolve_refs(&self, refs: &Vec<usize>) -> (r: Vec<u64>)
        ensures
            r@ == resolved_ids(self@.slots, refs@),
    {
        let mut r: Vec<u64> = Vec::new();
        let mut k: usize = 0;
        while k < refs.len()
            invariant
                k <= refs@.len(),
                self@.slots.len() == self.slots@.len(),
                r@ == resolved_ids(self@.slots, refs@.take(k as int)),
            decreases refs@.len() - k,
        {
            assert(refs@.take(k + 1).drop_last() =~= refs@.take(k as int));
            let x = refs[k];
            if x < self.slots.len() {
                assert(self@.slots[x as int] == slot_view(self.slots@[x as int]));
                match &self.slots[x] {
                    Some(t) => r.push(t.id),
                    None => {},
                }
            }
            k = k + 1;
        }
        assert(refs@.take(refs@.len() as int) =~= refs@);
        r
    }

    /// The ids of the live children of the task `id`, or none when there is no such task.
    pub fn children_of(&self, id: u64) -> (r: Option<Vec<u64>>)
        requires
            self@.wf(),
        ensures
            r is Some == self@.has_task(id),
            r is Some ==> r->Some_0@ == self@.children_ids(id),
    {
        match self.get_task(id) {
            Some(t) => Some(self.resolve_refs(&t.children)),
            None => None,
        }
    }

    /// The ids of the live parents of the task `id`, or none when there is no such task.
    pub fn parents_of(&self, id: u64) -> (r: Option<Vec<u64>>)
        requires
            self@.wf(),
        ensures
            r is Some == self@.has_task(id),
            r is Some ==> r->Some_0@ == self@.parent_ids(id),
    {
        match self.get_task(id) {
            Some(t) => Some(self.resolve_refs(&t.parents)),
            None => None,
        }
    }

    /// The ids of the live tasks, in creation order.
    pub fn list_tasks(&self) -> (r: Vec<u64>)
        ensures
            r@ == self@.task_ids(),
    {
        let mut r: Vec<u64> = Vec::new();
        let mut i: usize = 0;
        while i < self.slots.len()
            invariant
                i <= self.slots@.len(),
                self@.slots.len() == self.slots@.len(),
                r@ == live_ids(self@.slots, i as int),
            decreases self.slots@.len() - i,
        {
            assert(self@.slots[i as int] == slot_view(self.slots@[i as int]));
            match &self.slots[i] {
                Some(t) => r.push(t.id),
                None => {},
            }
            i = i + 1;
        }
        r
    }

    /// Every edge between live tasks as a (parent id, child id) pair.
    pub fn get_dependencies(&self) -> (r: Vec<(u64, u64)>)
        ensures
            r@ == dependency_pairs(self@.slots, self@.slots.len() as int),
    {
        let mut r: Vec<(u64, u64)> = Vec::new();
        let mut i: usize = 0;
        while i < self.slots.len()
            invariant
                i <= self.slots@.len(),
                self@.slots.len() == self.slots@.len(),
                r@ == dependency_pairs(self@.slots, i as int),
            decreases self.slots@.len() - i,
        {
            assert(self@.slots[i as int] == slot_view(self.slots@[i as int]));
            match &self.slots[i] {
                Some(parent) => {
                    let children = self.resolve_refs(&parent.children);
                    let ghost before = r@;
                    let mut k: usize = 0;
                    while k < children.len()
                        invariant
                            k <= children@.len(),
                            r@ == before + children@.take(k as int).map_values(
                                |c: u64| (parent.id, c),
                            ),
                        decreases children@.len() - k,
                    {
                        r.push((parent.id, children[k]));
                        assert(children@.take(k + 1).map_values(|c: u64| (parent.id, c))
                            =~= children@.take(k as int).map_values(|c: u64| (parent.id, c)).push(
                            (parent.id, children@[k as int]),
                        ));
                        k = k + 1;
                    }
                    assert(children@.take(children@.len() as int) =~= children@);
                },
                None => {},
            }
            i = i + 1;
        }
        r
    }

    /// Registers a function under a name that was already trimmed: none when the name is not
    /// ASCII; an empty name gets the default name.
    pub fn add_function(&mut self, id: u64, trimmed: &str) -> (r: Option<Function>)
        ensures
            (final(self)@, function_view(r)) == old(self)@.create_function_spec(id, trimmed@),
    {
        let f = if trimmed.is_empty() {
            Function::unnamed(id)
        } else {
            match Function::new(id, trimmed.to_owned()) {
                Ok(f) => f,
                Err(_) => return None,
            }
        };
        let copy = Function { id: f.id, name: f.name.clone() };
        let ghost old_view = self@;
        self.functions.push(f);
        proof {
            lemma_decimal_ascii(id as nat);
            assert(is_ascii_chars(default_name(id))) by {
                reveal_strlit("default_function_");
                vstd::utf8::is_ascii_chars_concat(
                    "default_function_"@ + decimal(id as nat),
                    "default_function_"@,
                    decimal(id as nat),
                );
                vstd::utf8::is_ascii_chars_concat(
                    default_name(id),
                    "default_function_"@ + decimal(id as nat),
                    seq!['\0'],
                );
            }
            assert(self@.functions =~= old_view.functions.push(copy@));
        }
        Some(copy)
    }

    /// Registers a function: none when its trimmed name is not ASCII; a name that is empty once
    /// trimmed gets the default name.
    pub fn create_function(&mut self, id: u64, name: String) -> (r: Option<Function>)
        ensures
            (final(self)@, function_view(r)) == old(self)@.create_function_spec(
                id,
                trim_of(name@),
            ),
            is_ascii_chars(name@) ==> r is Some && final(self)@.functions == old(
                self,
            )@.functions.push(r->Some_0@) && r->Some_0.id == id,
            name@.len() == 0 ==> r is Some && r->Some_0@ == (FunctionView {
                id,
                name: default_name(id),
            }),
    {
        let trimmed = trim_str(name.as_str());
        assert(is_ascii_chars(name@) ==> is_ascii_chars(trimmed@));
        assert(name@.len() == 0 ==> trimmed@.len() == 0) by {
            if name@.len() == 0 && trimmed@.len() > 0 {
                assert(name@.contains(trimmed@[0]));
            }
        }
        self.add_function(id, trimmed)
    }

    /// The functions, in registration order.
    pub fn list_functions(&self) -> (r: &[Function])
        ensures
            r@.map_values(|f: Function| f@) == self@.functions,
    {
        self.functions.as_slice()
    }

    /// The first function registered under `fid`.
    pub fn get_function(&self, fid: u64) -> (r: Option<&Function>)
        ensures
            r is Some == self@.has_function(fid),
            r is Some ==> exists|k: int|
                0 <= k < self@.functions.len() && self@.functions[k] == r->Some_0@ && r->Some_0.id
                    == fid && forall|j: int| 0 <= j < k ==> #[trigger] self@.functions[j].id != fid,
    {
        let mut k: usize = 0;
        while k < self.functions.len()
            invariant
                k <= self.functions@.len(),
                self@.functions.len() == self.functions@.len(),
                forall|j: int| 0 <= j < k ==> self@.functions[j].id != fid,
            decreases self.functions@.len() - k,
        {
            assert(self@.functions[k as int] == self.functions@[k as int]@);
            if self.functions[k].id == fid {
                assert(self@.functions[k as int].id == fid);
                return Some(&self.functions[k]);
            }
            k = k + 1;
        }
        None
    }
}

impl Default for AppState {
    fn default() -> (r: Self)
        ensures
            r@.wf(),
            !r@.is_pre_init,
            !r@.is_init,
            r@.slots.len() == 0,
            r@.functions.len() == 0,
    {
        Self::new()
    }
}

} // verus!

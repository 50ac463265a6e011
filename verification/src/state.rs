//! The execution state: variable frames, the call stack, the function table,
//! and the append-only change log that records every print and every stack
//! mutation.
//!
//! A frame is modelled as a mathematical map from variable name to value; an
//! unset variable reads as 0. The change log is modelled as a sequence of
//! `ChangeView` entries; it only ever grows.

use vstd::prelude::*;

use crate::syntax::{Function, FunctionView, Statement};

verus! {

/// The map that a sequence of `(name, value)` entries denotes: later entries
/// win over earlier ones.
pub open spec fn frame_map(s: Seq<(String, i32)>) -> Map<Seq<char>, i32>
    decreases s.len(),
{
    if s.len() == 0 {
        Map::empty()
    } else {
        frame_map(s.drop_last()).insert(s.last().0@, s.last().1)
    }
}

/// What a variable read returns on a frame: the bound value, or 0 when the
/// name is unbound.
pub open spec fn frame_read(m: Map<Seq<char>, i32>, x: Seq<char>) -> i32 {
    if m.contains_key(x) {
        m[x]
    } else {
        0
    }
}

/// No two entries bind the same name.
pub open spec fn unique_keys(s: Seq<(String, i32)>) -> bool {
    forall|i: int, j: int| 0 <= i < j < s.len() ==> s[i].0@ != s[j].0@
}

/// Overwriting the entry that holds a key updates the denoted map at that key.
proof fn lemma_frame_map_update(s: Seq<(String, i32)>, i: int, x: String, v: i32)
    requires
        0 <= i < s.len(),
        s[i].0@ == x@,
        unique_keys(s),
    ensures
        frame_map(s.update(i, (x, v))) == frame_map(s).insert(x@, v),
    decreases s.len(),
{
    let t = s.update(i, (x, v));
    if i == s.len() - 1 {
        assert(t.drop_last() =~= s.drop_last());
        assert(frame_map(t) =~= frame_map(s).insert(x@, v));
    } else {
        assert(unique_keys(s.drop_last()));
        lemma_frame_map_update(s.drop_last(), i, x, v);
        assert(t.drop_last() =~= s.drop_last().update(i, (x, v)));
        assert(s[i].0@ != s.last().0@);
        assert(t.last() == s.last());
        assert(frame_map(t) =~= frame_map(s).insert(x@, v));
    }
}

/// The text of a frame's entries: one `name: value` line per entry, in entry
/// order.
pub open spec fn frame_text(s: Seq<(String, i32)>) -> Seq<char>
    decreases s.len(),
{
    if s.len() == 0 {
        Seq::empty()
    } else {
        frame_text(s.drop_last()) + s.last().0@ + ": "@ + crate::text::dec_str(s.last().1 as int)
            + "\n"@
    }
}

/// A key held by no entry is absent from the denoted map.
proof fn lemma_frame_map_absent(s: Seq<(String, i32)>, x: Seq<char>)
    requires
        forall|i: int| 0 <= i < s.len() ==> s[i].0@ != x,
    ensures
        !frame_map(s).contains_key(x),
    decreases s.len(),
{
    if s.len() > 0 {
        lemma_frame_map_absent(s.drop_last(), x);
    }
}

/// One variable frame: a mapping from variable name to integer value, scoped
/// to one function activation.
#[derive(Debug)]
pub struct StackFrame {
    entries: Vec<(String, i32)>,
}

impl View for StackFrame {
    type V = Map<Seq<char>, i32>;

    /// A frame denotes the map of its entries.
    closed spec fn view(&self) -> Map<Seq<char>, i32> {
        frame_map(self.entries@)
    }
}

impl StackFrame {
    /// Each name is bound by at most one entry.
    pub closed spec fn wf(&self) -> bool {
        unique_keys(self.entries@)
    }

    /// An empty frame: every variable reads as 0.
    pub fn new() -> (r: Self)
        ensures
            r@ == Map::<Seq<char>, i32>::empty(),
            r.wf(),
    {
        StackFrame { entries: Vec::new() }
    }

    /// Reads a variable; an unbound name reads as 0.
    pub fn read_variable(&self, x: &String) -> (r: i32)
        ensures
            r == frame_read(self@, x@),
    {
        let n = self.entries.len();
        proof {
            assert(self.entries@.take(n as int) =~= self.entries@);
        }
        let mut i: usize = n;
        while i > 0
            invariant
                i <= n,
                n == self.entries@.len(),
                frame_read(self@, x@) == frame_read(frame_map(self.entries@.take(i as int)), x@),
            decreases i,
        {
            let prefix = Ghost(self.entries@.take(i as int));
            proof {
                assert(prefix@.drop_last() =~= self.entries@.take(i - 1));
                assert(prefix@.last() == self.entries@[i - 1]);
            }
            if self.entries[i - 1].0 == *x {
                return self.entries[i - 1].1;
            }
            i = i - 1;
        }
        proof {
            assert(self.entries@.take(0) =~= Seq::<(String, i32)>::empty());
        }
        0
    }

    /// Binds a name to a value, replacing any earlier binding of that name.
    pub fn set_variable(&mut self, x: String, v: i32)
        requires
            old(self).wf(),
        ensures
            final(self)@ == old(self)@.insert(x@, v),
            final(self).wf(),
    {
        let n = self.entries.len();
        let mut i: usize = 0;
        while i < n
            invariant
                i <= n,
                n == self.entries@.len(),
                forall|j: int| 0 <= j < i ==> self.entries@[j].0@ != x@,
                self == old(self),
                old(self).wf(),
            decreases n - i,
        {
            if self.entries[i].0 == x {
                proof {
                    lemma_frame_map_update(self.entries@, i as int, x, v);
                }
                self.entries.set(i, (x, v));
                proof {
                    assert(unique_keys(self.entries@));
                }
                return ;
            }
            i = i + 1;
        }
        proof {
            lemma_frame_map_absent(self.entries@, x@);
            assert(self.entries@.push((x, v)).drop_last() =~= self.entries@);
        }
        self.entries.push((x, v));
    }

    /// Builds a frame from a list of bindings, applied in order: a later
    /// binding of the same name wins.
    pub fn from_bindings(bindings: Vec<(String, i32)>) -> (r: Self)
        ensures
            r@ == frame_map(bindings@),
            r.wf(),
    {
        let mut frame = Self::new();
        let n = bindings.len();
        let mut i: usize = 0;
        while i < n
            invariant
                i <= n,
                n == bindings@.len(),
                frame@ == frame_map(bindings@.take(i as int)),
                frame.wf(),
            decreases n - i,
        {
            proof {
                assert(bindings@.take(i + 1).drop_last() =~= bindings@.take(i as int));
                assert(bindings@.take(i + 1).last() == bindings@[i as int]);
            }
            let (x, v) = (bindings[i].0.clone(), bindings[i].1);
            frame.set_variable(x, v);
            i = i + 1;
        }
        proof {
            assert(bindings@.take(n as int) =~= bindings@);
        }
        frame
    }

    /// The text of the frame: one `name: value` line per entry.
    pub closed spec fn text(&self) -> Seq<char> {
        frame_text(self.entries@)
    }

    /// Renders the frame, one `name: value` line per entry.
    pub fn to_text(&self) -> (r: String)
        ensures
            r@ == self.text(),
    {
        let n = self.entries.len();
        let mut out = String::new();
        let mut i: usize = 0;
        while i < n
            invariant
                i <= n,
                n == self.entries@.len(),
                out@ == frame_text(self.entries@.take(i as int)),
            decreases n - i,
        {
            proof {
                assert(self.entries@.take(i + 1).drop_last() =~= self.entries@.take(i as int));
                assert(self.entries@.take(i + 1).last() == self.entries@[i as int]);
            }
            out.append(self.entries[i].0.as_str());
            out.append(": ");
            let vt = crate::text::int_to_string(self.entries[i].1);
            out.append(vt.as_str());
            out.append("\n");
            proof {
                assert(out@ =~= frame_text(self.entries@.take(i + 1)));
            }
            i = i + 1;
        }
        proof {
            assert(self.entries@.take(n as int) =~= self.entries@);
        }
        out
    }

    /// The entries of the frame; their denoted map is the frame's content.
    pub fn iter(&self) -> (r: &Vec<(String, i32)>)
        ensures
            frame_map(r@) == self@,
            unique_keys(r@) == self.wf(),
    {
        &self.entries
    }
}

impl Clone for StackFrame {
    /// A copy with the same content.
    fn clone(&self) -> (res: Self)
        ensures
            res@ == self@,
            res.wf() == self.wf(),
    {
        let n = self.entries.len();
        let mut entries: Vec<(String, i32)> = Vec::new();
        let mut i: usize = 0;
        while i < n
            invariant
                i <= n,
                n == self.entries@.len(),
                entries@ =~= self.entries@.take(i as int),
            decreases n - i,
        {
            entries.push((self.entries[i].0.clone(), self.entries[i].1));
            proof {
                assert(entries@ =~= self.entries@.take(i + 1));
            }
            i = i + 1;
        }
        proof {
            assert(entries@ =~= self.entries@);
        }
        StackFrame { entries }
    }
}

/// The call stack: a sequence of frames, bottom first. The last frame is the
/// current activation; variable reads and writes target it alone.
#[derive(Debug)]
pub struct Stack {
    pub frames: Vec<StackFrame>,
}

impl View for Stack {
    type V = Seq<Map<Seq<char>, i32>>;

    /// A stack denotes the sequence of its frames' maps, bottom first.
    open spec fn view(&self) -> Seq<Map<Seq<char>, i32>> {
        self.frames@.map_values(|f: StackFrame| f@)
    }
}

impl Stack {
    /// Every frame is well formed.
    pub open spec fn wf(&self) -> bool {
        forall|i: int| 0 <= i < self.frames@.len() ==> #[trigger] self.frames@[i].wf()
    }

    /// An empty stack, with no frame at all.
    pub fn new() -> (r: Self)
        ensures
            r@ == Seq::<Map<Seq<char>, i32>>::empty(),
            r.wf(),
    {
        let r = Stack { frames: Vec::new() };
        proof {
            assert(r@ =~= Seq::<Map<Seq<char>, i32>>::empty());
        }
        r
    }

    /// Reads a variable from the top frame; an unbound name reads as 0.
    pub fn read_variable(&self, x: &String) -> (r: i32)
        requires
            self@.len() > 0,
        ensures
            r == frame_read(self@.last(), x@),
    {
        self.frames[self.frames.len() - 1].read_variable(x)
    }

    /// Binds a name in the top frame, replacing any earlier binding there.
    pub fn set_variable(&mut self, x: String, v: i32)
        requires
            old(self).wf(),
            old(self)@.len() > 0,
        ensures
            final(self)@ == old(self)@.update(
                old(self)@.len() - 1,
                old(self)@.last().insert(x@, v),
            ),
            final(self).wf(),
    {
        let mut frame = self.frames.pop().unwrap();
        frame.set_variable(x, v);
        self.frames.push(frame);
        proof {
            assert(final(self)@ =~= old(self)@.update(
                old(self)@.len() - 1,
                old(self)@.last().insert(x@, v),
            ));
        }
    }

    /// Pushes a frame on top: it becomes the current activation.
    pub fn push_frame(&mut self, frame: StackFrame)
        requires
            frame.wf(),
        ensures
            final(self)@ == old(self)@.push(frame@),
            old(self).wf() ==> final(self).wf(),
    {
        self.frames.push(frame);
        proof {
            assert(final(self)@ =~= old(self)@.push(frame@));
        }
    }

    /// Pops the top frame, ending the current activation.
    pub fn pop_frame(&mut self) -> (r: StackFrame)
        requires
            old(self)@.len() > 0,
        ensures
            final(self)@ == old(self)@.drop_last(),
            r@ == old(self)@.last(),
            old(self).wf() ==> final(self).wf(),
    {
        let r = self.frames.pop().unwrap();
        proof {
            assert(final(self)@ =~= old(self)@.drop_last());
        }
        r
    }

    /// The frames of the stack, bottom first.
    pub fn iter(&self) -> (r: &Vec<StackFrame>)
        ensures
            r == &self.frames,
    {
        &self.frames
    }
}

impl Clone for Stack {
    /// A copy with the same frame contents.
    fn clone(&self) -> (res: Self)
        ensures
            res@ == self@,
            self.wf() ==> res.wf(),
    {
        let n = self.frames.len();
        let mut frames: Vec<StackFrame> = Vec::new();
        let mut i: usize = 0;
        while i < n
            invariant
                i <= n,
                n == self.frames@.len(),
                frames@.len() == i,
                forall|j: int| 0 <= j < i ==> #[trigger] frames@[j]@ == self.frames@[j]@,
                forall|j: int| 0 <= j < i ==> (#[trigger] frames@[j].wf() == self.frames@[j].wf()),
            decreases n - i,
        {
            frames.push(self.frames[i].clone());
            i = i + 1;
        }
        let res = Stack { frames };
        proof {
            assert(res@ =~= self@);
        }
        res
    }
}

/// One recorded observable effect: a printed text, or a deep copy of the
/// stack as it stood right after an assignment.
#[derive(Debug)]
pub enum Change {
    Print(String),
    Stack(Stack),
}

/// The ghost mirror of `Change`.
pub enum ChangeView {
    Print(Seq<char>),
    Stack(Seq<Map<Seq<char>, i32>>),
}

impl View for Change {
    type V = ChangeView;

    open spec fn view(&self) -> ChangeView {
        match self {
            Change::Print(msg) => ChangeView::Print(msg@),
            Change::Stack(stack) => ChangeView::Stack(stack@),
        }
    }
}

/// The map that a sequence of registered functions denotes: a later
/// registration of a name wins over an earlier one.
pub open spec fn fun_map(s: Seq<Function>) -> Map<Seq<char>, FunctionView>
    decreases s.len(),
{
    if s.len() == 0 {
        Map::empty()
    } else {
        fun_map(s.drop_last()).insert(s.last().name@, s.last()@)
    }
}

/// The print entries of a change log, in emission order.
pub open spec fn print_log(cs: Seq<ChangeView>) -> Seq<Seq<char>>
    decreases cs.len(),
{
    if cs.len() == 0 {
        Seq::empty()
    } else {
        print_log(cs.drop_last()) + (match cs.last() {
            ChangeView::Print(msg) => seq![msg],
            ChangeView::Stack(_) => Seq::empty(),
        })
    }
}

/// The stack snapshots of a change log, in mutation order.
pub open spec fn stack_log(cs: Seq<ChangeView>) -> Seq<Seq<Map<Seq<char>, i32>>>
    decreases cs.len(),
{
    if cs.len() == 0 {
        Seq::empty()
    } else {
        stack_log(cs.drop_last()) + (match cs.last() {
            ChangeView::Print(_) => Seq::empty(),
            ChangeView::Stack(stack) => seq![stack],
        })
    }
}

/// The ghost mirror of `State`: the stack of frame maps, the change log, and
/// the function table.
pub struct StateView {
    pub stack: Seq<Map<Seq<char>, i32>>,
    pub changes: Seq<ChangeView>,
    pub functions: Map<Seq<char>, FunctionView>,
}

/// The whole execution state of one program run.
#[derive(Debug)]
pub struct State {
    pub stack: Stack,
    changes: Vec<Change>,
    functions: Vec<Function>,
}

impl View for State {
    type V = StateView;

    closed spec fn view(&self) -> StateView {
        StateView {
            stack: self.stack@,
            changes: self.changes@.map_values(|c: Change| c@),
            functions: fun_map(self.functions@),
        }
    }
}

/// The state after an assignment: the top frame is updated and a snapshot of
/// the new stack is appended to the change log.
pub open spec fn state_after_assign(st: StateView, x: Seq<char>, v: i32) -> StateView {
    let stack = st.stack.update(st.stack.len() - 1, st.stack.last().insert(x, v));
    StateView { stack, changes: st.changes.push(ChangeView::Stack(stack)), functions: st.functions }
}

/// The state after a print: the printed text is appended to the change log.
pub open spec fn state_after_print(st: StateView, msg: Seq<char>) -> StateView {
    StateView { changes: st.changes.push(ChangeView::Print(msg)), ..st }
}

/// What a function lookup finds: the registered function, or nothing.
pub open spec fn fun_lookup(m: Map<Seq<char>, FunctionView>, k: Seq<char>) -> Option<FunctionView> {
    if m.contains_key(k) {
        Some(m[k])
    } else {
        None
    }
}

/// The frame that a call builds: each parameter is bound positionally to the
/// argument value with the same index. A missing argument leaves its
/// parameter unbound (it then reads as 0); an extra argument is dropped.
pub open spec fn bind_frame(params: Seq<Seq<char>>, vals: Seq<i32>) -> Map<Seq<char>, i32> {
    bind_upto(params, vals, if params.len() <= vals.len() { params.len() as int } else { vals.len() as int })
}

/// The bindings of the first `k` parameter/argument pairs, in order.
pub open spec fn bind_upto(params: Seq<Seq<char>>, vals: Seq<i32>, k: int) -> Map<Seq<char>, i32>
    decreases k,
{
    if k <= 0 {
        Map::empty()
    } else {
        bind_upto(params, vals, k - 1).insert(params[k - 1], vals[k - 1])
    }
}

/// Finds the registration that a name denotes: the last one made under that
/// name, per `fun_map`.
fn find_function(functions: &Vec<Function>, name: &String) -> (r: Option<usize>)
    ensures
        match r {
            Some(i) => {
                &&& i < functions@.len()
                &&& fun_map(functions@).contains_key(name@)
                &&& functions@[i as int]@ == fun_map(functions@)[name@]
            },
            None => !fun_map(functions@).contains_key(name@),
        },
{
    let n = functions.len();
    proof {
        assert(functions@.take(n as int) =~= functions@);
    }
    let mut i: usize = n;
    while i > 0
        invariant
            i <= n,
            n == functions@.len(),
            fun_lookup(fun_map(functions@), name@) == fun_lookup(
                fun_map(functions@.take(i as int)),
                name@,
            ),
        decreases i,
    {
        let ghost prefix = functions@.take(i as int);
        proof {
            assert(prefix.drop_last() =~= functions@.take(i - 1));
            assert(prefix.last() == functions@[i - 1]);
        }
        if functions[i - 1].name == *name {
            return Some(i - 1);
        }
        i = i - 1;
    }
    proof {
        assert(functions@.take(0) =~= Seq::<Function>::empty());
    }
    None
}

impl State {
    /// The stack holds at least the global frame, and every frame is well
    /// formed.
    pub closed spec fn wf(&self) -> bool {
        &&& self.stack.wf()
        &&& self.stack@.len() >= 1
    }

    /// A fresh state: one empty global frame, no registered function, and an
    /// empty change log.
    pub fn new() -> (r: Self)
        ensures
            r@ == (StateView {
                stack: seq![Map::<Seq<char>, i32>::empty()],
                changes: Seq::empty(),
                functions: Map::empty(),
            }),
            r.wf(),
    {
        let mut stack = Stack::new();
        stack.push_frame(StackFrame::new());
        let r = State { stack, changes: Vec::new(), functions: Vec::new() };
        proof {
            assert(r@.changes =~= Seq::<ChangeView>::empty());
            assert(r@.stack =~= seq![Map::<Seq<char>, i32>::empty()]);
        }
        r
    }

    /// Reads a variable from the current (top) frame.
    pub fn read_variable(&self, x: &String) -> (r: i32)
        requires
            self.wf(),
        ensures
            r == frame_read(self@.stack.last(), x@),
    {
        self.stack.read_variable(x)
    }

    /// Binds a name in the current frame and records a snapshot of the
    /// resulting stack in the change log.
    pub fn set_variable(&mut self, x: String, v: i32)
        requires
            old(self).wf(),
        ensures
            final(self)@ == state_after_assign(old(self)@, x@, v),
            final(self).wf(),
    {
        self.stack.set_variable(x, v);
        let snapshot = self.stack.clone();
        self.changes.push(Change::Stack(snapshot));
        proof {
            assert(final(self)@.changes =~= state_after_assign(old(self)@, x@, v).changes);
        }
    }

    /// Appends a printed text to the change log.
    pub fn print(&mut self, msg: String)
        ensures
            final(self)@ == state_after_print(old(self)@, msg@),
            old(self).wf() ==> final(self).wf(),
    {
        self.changes.push(Change::Print(msg));
        proof {
            assert(final(self)@.changes =~= state_after_print(old(self)@, msg@).changes);
        }
    }

    /// The printed texts, in emission order.
    pub fn output(&self) -> (r: Vec<String>)
        ensures
            r@.map_values(|s: String| s@) == print_log(self@.changes),
    {
        let n = self.changes.len();
        let mut r: Vec<String> = Vec::new();
        let mut i: usize = 0;
        while i < n
            invariant
                i <= n,
                n == self.changes@.len(),
                r@.map_values(|s: String| s@) == print_log(
                    self.changes@.map_values(|c: Change| c@).take(i as int),
                ),
            decreases n - i,
        {
            let ghost log = self.changes@.map_values(|c: Change| c@);
            proof {
                assert(log.take(i + 1).drop_last() =~= log.take(i as int));
                assert(log.take(i + 1).last() == log[i as int]);
            }
            match &self.changes[i] {
                Change::Print(msg) => {
                    let m = msg.clone();
                    r.push(m);
                    proof {
                        assert(r@.map_values(|s: String| s@) =~= print_log(log.take(i + 1)));
                    }
                },
                Change::Stack(_) => {
                    proof {
                        assert(r@.map_values(|s: String| s@) =~= print_log(log.take(i + 1)));
                    }
                },
            }
            i = i + 1;
        }
        proof {
            let log = self.changes@.map_values(|c: Change| c@);
            assert(log.take(n as int) =~= log);
        }
        r
    }

    /// The stack snapshots, in mutation order.
    pub fn stacks(&self) -> (r: Vec<Stack>)
        ensures
            r@.map_values(|s: Stack| s@) == stack_log(self@.changes),
    {
        let n = self.changes.len();
        let mut r: Vec<Stack> = Vec::new();
        let mut i: usize = 0;
        while i < n
            invariant
                i <= n,
                n == self.changes@.len(),
                r@.map_values(|s: Stack| s@) == stack_log(
                    self.changes@.map_values(|c: Change| c@).take(i as int),
                ),
            decreases n - i,
        {
            let ghost log = self.changes@.map_values(|c: Change| c@);
            proof {
                assert(log.take(i + 1).drop_last() =~= log.take(i as int));
                assert(log.take(i + 1).last() == log[i as int]);
            }
            match &self.changes[i] {
                Change::Print(_) => {
                    proof {
                        assert(r@.map_values(|s: Stack| s@) =~= stack_log(log.take(i + 1)));
                    }
                },
                Change::Stack(stack) => {
                    let s = stack.clone();
                    r.push(s);
                    proof {
                        assert(r@.map_values(|s: Stack| s@) =~= stack_log(log.take(i + 1)));
                    }
                },
            }
            i = i + 1;
        }
        proof {
            let log = self.changes@.map_values(|c: Change| c@);
            assert(log.take(n as int) =~= log);
        }
        r
    }

    /// Registers a function under its name, replacing any earlier
    /// registration of that name.
    pub fn add_function(&mut self, fun: Function)
        ensures
            final(self)@ == (StateView {
                functions: old(self)@.functions.insert(fun.name@, fun@),
                ..old(self)@
            }),
    {
        proof {
            assert(self.functions@.push(fun).drop_last() =~= self.functions@);
        }
        self.functions.push(fun);
    }

    /// Whether a function is registered under the given name.
    pub fn has_function(&self, name: &String) -> (r: bool)
        ensures
            r == self@.functions.contains_key(name@),
    {
        find_function(&self.functions, name).is_some()
    }

    /// Prepares the invocation of a registered function: pushes a fresh frame
    /// holding the positional parameter bindings, and hands back the body to
    /// run. No change-log entry is recorded.
    pub fn prepare_function(&mut self, fun_name: &String, vs: Vec<i32>) -> (r: Statement)
        requires
            old(self).wf(),
            old(self)@.functions.contains_key(fun_name@),
        ensures
            final(self)@ == (StateView {
                stack: old(self)@.stack.push(
                    bind_frame(old(self)@.functions[fun_name@].params, vs@),
                ),
                ..old(self)@
            }),
            r@ == old(self)@.functions[fun_name@].body,
            final(self).wf(),
    {
        let idx = find_function(&self.functions, fun_name).unwrap();
        let body = self.functions[idx].body.clone();
        let ghost params = self@.functions[fun_name@].params;
        let fun_vars = &self.functions[idx].variables;
        let k = if fun_vars.len() <= vs.len() {
            fun_vars.len()
        } else {
            vs.len()
        };
        let mut frame = StackFrame::new();
        let mut j: usize = 0;
        while j < k
            invariant
                j <= k,
                k == (if fun_vars@.len() <= vs@.len() {
                    fun_vars@.len()
                } else {
                    vs@.len()
                }),
                params == fun_vars.deep_view(),
                frame@ == bind_upto(params, vs@, j as int),
                frame.wf(),
            decreases k - j,
        {
            frame.set_variable(fun_vars[j].clone(), vs[j]);
            j = j + 1;
        }
        self.stack.push_frame(frame);
        body
    }

    /// The text of the global (bottom) frame.
    pub closed spec fn global_frame_text(&self) -> Seq<char> {
        self.stack.frames@[0].text()
    }

    /// Renders the global (bottom) frame, one `name: value` line per entry.
    pub fn to_text(&self) -> (r: String)
        requires
            self.wf(),
        ensures
            r@ == self.global_frame_text(),
    {
        self.stack.frames[0].to_text()
    }

    /// A well-formed state has a current frame.
    pub proof fn lemma_wf_stack_depth(&self)
        requires
            self.wf(),
        ensures
            self@.stack.len() >= 1,
    {
    }

    /// Pops the top frame after a call returns, restoring the caller's frame
    /// as current.
    pub fn pop_frame(&mut self)
        requires
            old(self).wf(),
            old(self)@.stack.len() > 1,
        ensures
            final(self)@ == (StateView { stack: old(self)@.stack.drop_last(), ..old(self)@ }),
            final(self).wf(),
    {
        let _frame = self.stack.pop_frame();
    }
}

} // verus!

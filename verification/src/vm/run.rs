//! Running a program: steps in a row, and what becomes of an error.

use vstd::prelude::*;
use vstd::string::*;
use crate::common::array::Array;
use crate::common::closure::{Closure, ClosureView};
use crate::common::table::{put, Table};
use crate::common::text::{decimal, push_decimal, push_str, string_of};
use crate::common::value::{vals, RustFunc, Val, Value};
use crate::vm::error::{error_text, Fault, RuntimeError};
use crate::vm::machine::VM;
use crate::vm::state::{CallInfo, State, Step};

verus! {

/// What a run leaves: the state, and the step at which it stopped or the
/// text of the error that ended it.
pub ghost struct Ran {
    pub state: State,
    pub result: Result<Step, Seq<char>>,
}

/// The closure that stands for a native function in a stack trace: it has
/// the function's name and the file name `rust`.
pub open spec fn stand_in(name: Seq<char>) -> ClosureView {
    ClosureView {
        name,
        file_name: "rust"@,
        lines: Seq::empty(),
        upvals: Seq::empty(),
        code: Seq::empty(),
        consts: Seq::empty(),
        nparams: 0,
    }
}

impl State {
    /// The state without the frame of a failed native function, if that is
    /// the top frame.
    pub open spec fn without_builtin(self) -> State {
        if self.frames.len() > 0 && self.frames.last().is_builtin {
            State { frames: self.frames.drop_last(), ..self }
        } else {
            self
        }
    }

    /// A text with the place of the running frame before it: the file of
    /// its closure, a colon, the line of the instruction at `pc`, a colon
    /// and a space. The line is 0 where `pc` has none, and a machine
    /// without a frame gives a question mark for the file.
    pub open spec fn located(self, text: Seq<char>) -> Seq<char> {
        if self.frames.len() > 0 && self.top().closure < self.closures.len() {
            self.closure().file_name + ":"@ + decimal(
                if self.top().pc < self.closure().lines.len() {
                    self.closure().lines[self.top().pc as int] as nat
                } else {
                    0
                },
            ) + ": "@ + text
        } else {
            "?:0: "@ + text
        }
    }

    /// The text in which an error is reported: the error with the stack
    /// trace of all frames, at the place of the frame that runs once the
    /// frame of a failed native function is gone.
    pub open spec fn report_text(self, f: Fault) -> Seq<char> {
        self.without_builtin().located(error_text(f, self.frames, self.closures))
    }

    /// The state with a frame for a failed native function on top.
    pub open spec fn with_builtin(self, func: usize) -> State {
        State {
            closures: self.closures.push(
                stand_in(
                    if func < self.natives.len() {
                        self.natives[func as int]
                    } else {
                        "?"@
                    },
                ),
            ),
            frames: self.frames.push(
                CallInfo { closure: self.closures.len() as usize, is_builtin: true, base: 0, pc: 0 },
            ),
            ..self
        }
    }

    /// One step, with an error turned into its report.
    pub open spec fn once(self) -> Ran {
        let o = self.step();
        match o.result {
            Ok(s) => Ran { state: o.state, result: Ok(s) },
            Err(f) => Ran { state: o.state.without_builtin(), result: Err(o.state.report_text(f)) },
        }
    }

    /// At most `budget` steps: the run stops at the first step that is not
    /// [`Step::Next`], and at an error. A run that spent its budget ends in
    /// [`Step::Next`].
    pub open spec fn run(self, budget: nat) -> Ran
        decreases budget,
    {
        if budget == 0 {
            Ran { state: self, result: Ok(Step::Next) }
        } else {
            let r = self.once();
            match r.result {
                Ok(Step::Next) => r.state.run((budget - 1) as nat),
                _ => r,
            }
        }
    }
}

/// What a run returned, with text as a sequence of characters.
pub open spec fn ran_view(r: Result<Step, String>) -> Result<Step, Seq<char>> {
    match r {
        Ok(s) => Ok(s),
        Err(e) => Err(e@),
    }
}

impl VM {
    /// Reports an error: writes it with the stack trace, drops the frame of
    /// a failed native function, and puts the place of the running frame
    /// before the text.
    pub fn report(&mut self, e: &RuntimeError) -> (s: String)
        ensures
            s@ == old(self)@.report_text(e@),
            final(self)@ == old(self)@.without_builtin(),
    {
        let text: String = e.to_error(&self.call_stack, &self.closures);
        let n: usize = self.call_stack.len();
        if n > 0 {
            if self.call_stack[n - 1].is_builtin {
                self.call_stack.pop();
                assert(self@.frames =~= old(self)@.frames.drop_last());
            }
        }
        let mut out: Vec<char> = Vec::new();
        let n: usize = self.call_stack.len();
        if n > 0 && self.call_stack[n - 1].closure < self.closures.len() {
            let call: CallInfo = self.call_stack[n - 1];
            let c: &Closure = &self.closures[call.closure];
            push_str(&mut out, c.file_name.as_str());
            push_str(&mut out, ":");
            let line: usize = if call.pc < c.lines.len() {
                c.lines[call.pc]
            } else {
                0
            };
            push_decimal(&mut out, line as u64);
            push_str(&mut out, ": ");
        } else {
            push_str(&mut out, "?:0: ");
        }
        push_str(&mut out, text.as_str());
        assert(out@ =~= old(self)@.report_text(e@));
        string_of(&out)
    }

    /// Reports the error of a native function: a frame that stands for the
    /// function goes on the stack for the trace, and comes off again.
    pub fn native_failed(&mut self, func: usize, e: &RuntimeError) -> (s: String)
        ensures
            s@ == old(self)@.with_builtin(func).report_text(e@),
            final(self)@ == old(self)@.with_builtin(func).without_builtin(),
    {
        let mut c: Closure = Closure::new(String::from_str("rust"));
        if func < self.natives.len() {
            c.name = self.natives[func].name.clone();
        } else {
            c.name = String::from_str("?");
        }
        let h: usize = self.closures.len();
        self.closures.push(c);
        self.call_stack.push(CallInfo { closure: h, is_builtin: true, base: 0, pc: 0 });
        assert(self@.closures =~= old(self)@.with_builtin(func).closures);
        assert(self@.frames =~= old(self)@.with_builtin(func).frames);
        self.report(e)
    }

    /// Runs one instruction of a sound machine and reports its error, if it
    /// raises one. After a step without an error the machine is sound.
    pub fn run_once(&mut self) -> (r: Result<Step, String>)
        requires
            old(self)@.wf(),
        ensures
            final(self)@ == old(self)@.once().state,
            ran_view(r) == old(self)@.once().result,
            r is Ok ==> final(self)@.wf(),
    {
        match self.exec() {
            Ok(s) => Ok(s),
            Err(e) => Err(self.report(&e)),
        }
    }

    /// Runs at most `budget` instructions of a sound machine: until one
    /// leaves something to the driver, the program is done, an error ends
    /// it, or the budget is spent. After a run without an error the machine
    /// is sound.
    pub fn run(&mut self, budget: usize) -> (r: Result<Step, String>)
        requires
            old(self)@.wf(),
        ensures
            final(self)@ == old(self)@.run(budget as nat).state,
            ran_view(r) == old(self)@.run(budget as nat).result,
            r is Ok ==> final(self)@.wf(),
    {
        let mut left: usize = budget;
        let mut result: Result<Step, String> = Ok(Step::Next);
        let mut going: bool = true;
        while going && left > 0
            invariant
                going ==> old(self)@.run(budget as nat) == self@.run(left as nat),
                going ==> result == Ok::<Step, String>(Step::Next),
                result is Ok ==> self@.wf(),
                !going ==> old(self)@.run(budget as nat) == (Ran { state: self@, result: ran_view(result) }),
            decreases
                (if going {
                    left + 1
                } else {
                    0
                }),
        {
            let r: Result<Step, String> = self.run_once();
            left = left - 1;
            match r {
                Ok(Step::Next) => {},
                _ => {
                    result = r;
                    going = false;
                },
            }
        }
        result
    }

    /// Registers a native function under a name. Returns the handle by
    /// which the machine will ask for the function.
    pub fn native(&mut self, name: &str) -> (id: usize)
        ensures
            id == old(self)@.natives.len(),
            final(self)@ == (State { natives: old(self)@.natives.push(name@), ..old(self)@ }),
    {
        let id: usize = self.natives.len();
        self.natives.push(RustFunc { name: String::from_str(name) });
        assert(self@.natives =~= old(self)@.natives.push(name@));
        id
    }

    /// Registers a native function under a name and makes it a global
    /// variable of that name. Returns the handle by which the machine will
    /// ask for the function.
    pub fn builtin(&mut self, name: &str) -> (id: usize)
        ensures
            id == old(self)@.natives.len(),
            final(self)@ == (State {
                natives: old(self)@.natives.push(name@),
                globals: put(old(self)@.globals, Val::String(name@), Val::NativeFunc(id)),
                ..old(self)@
            }),
    {
        let id: usize = self.native(name);
        let _ = self.env.set_global(Value::String(String::from_str(name)), Value::NativeFunc(id));
        id
    }

    /// Makes a new array of the given values and returns the value that
    /// refers to it. The array's handle is one that no array had before.
    pub fn new_array(&mut self, items: Vec<Value>) -> (v: Value)
        ensures
            v@ == Val::Array(old(self)@.arrays.len() as usize),
            final(self)@ == (State { arrays: old(self)@.arrays.push(vals(items@)), ..old(self)@ }),
    {
        let h: usize = self.arrays.len();
        self.arrays.push(Array::new(items));
        assert(self@.arrays =~= old(self)@.arrays.push(vals(items@)));
        Value::Array(h)
    }

    /// Makes a new table without entries and returns the value that refers
    /// to it.
    pub fn new_table(&mut self) -> (v: Value)
        ensures
            v@ == Val::Table(old(self)@.tables.len() as usize),
            final(self)@ == (State { tables: old(self)@.tables.push(Seq::empty()), ..old(self)@ }),
    {
        let h: usize = self.tables.len();
        self.tables.push(Table::new());
        assert(self@.tables =~= old(self)@.tables.push(Seq::empty()));
        Value::Table(h)
    }
}

/// A constant of a function that moves to a machine whose closures start
/// `by` handles higher: a function constant refers `by` handles higher, any
/// other constant is as it was.
pub open spec fn moved_const(v: Val, by: usize) -> Val {
    match v {
        Val::Closure(h) => if h + by <= usize::MAX {
            Val::Closure((h + by) as usize)
        } else {
            Val::Closure(h)
        },
        _ => v,
    }
}

/// A function that moves to a machine whose closures start `by` handles
/// higher.
pub open spec fn moved_closure(c: ClosureView, by: usize) -> ClosureView {
    ClosureView { consts: Seq::new(c.consts.len(), |i: int| moved_const(c.consts[i], by)), ..c }
}

/// Moves the function constants of a function `by` handles higher.
pub fn relocate(c: &mut Closure, by: usize)
    ensures
        final(c)@ == moved_closure(old(c)@, by),
{
    let mut i: usize = 0;
    while i < c.consts.len()
        invariant
            i <= c.consts.len(),
            c.consts.len() == old(c).consts.len(),
            forall|j: int| 0 <= j < i ==> c.consts@[j]@ == moved_const(old(c).consts@[j]@, by),
            forall|j: int| i <= j < c.consts.len() ==> c.consts@[j]@ == old(c).consts@[j]@,
            *c == (Closure { consts: c.consts, ..*old(c) }),
        decreases c.consts.len() - i,
    {
        let moved: Option<usize> = match &c.consts[i] {
            Value::Closure(h) => if *h <= usize::MAX - by {
                Some(*h + by)
            } else {
                None
            },
            _ => None,
        };
        match moved {
            Some(h) => {
                c.consts[i] = Value::Closure(h);
            },
            None => {},
        }
        i += 1;
    }
    assert(c@.consts =~= moved_closure(old(c)@, by).consts);
}

impl VM {
    /// Takes a compiled program into the machine: its functions and then
    /// its main function go behind the closures that the machine has, with
    /// their function constants moved accordingly. Returns the handle of
    /// the main function.
    pub fn load(&mut self, main: Closure, funcs: Vec<Closure>) -> (h: usize)
        ensures
            h == old(self)@.closures.len() + funcs.len(),
            final(self)@ == (State {
                closures: old(self)@.closures + Seq::new(
                    funcs.len() as nat,
                    |i: int| moved_closure(funcs@[i]@, old(self).closures.len()),
                ).push(moved_closure(main@, old(self).closures.len())),
                ..old(self)@
            }),
    {
        let by: usize = self.closures.len();
        let mut funcs = funcs;
        let ghost given = funcs@;
        let n: usize = funcs.len();
        let mut i: usize = 0;
        while i < n
            invariant
                i <= n,
                n == funcs.len(),
                n == given.len(),
                forall|j: int| 0 <= j < i ==> funcs@[j]@ == moved_closure(given[j]@, by),
                forall|j: int| i <= j < n ==> funcs@[j] == given[j],
            decreases n - i,
        {
            relocate(&mut funcs[i], by);
            i += 1;
        }
        let ghost main0 = main@;
        let mut moved_main = main;
        relocate(&mut moved_main, by);
        let ghost moved_funcs = funcs@;
        self.closures.append(&mut funcs);
        self.closures.push(moved_main);
        proof {
            let want = old(self)@.closures + Seq::new(given.len(), |i: int| moved_closure(given[i]@, by)).push(
                moved_closure(main0, by),
            );
            assert(self.closures@ =~= (old(self).closures@ + moved_funcs).push(moved_main));
            assert(self@.closures.len() == want.len());
            assert forall|j: int| 0 <= j < want.len() implies self@.closures[j] == want[j] by {
                if j < by {
                    assert(self.closures@[j] == old(self).closures@[j]);
                } else if j < by + n {
                    assert(self.closures@[j] == moved_funcs[j - by]);
                }
            }
            assert(self@.closures =~= want);
        }
        self.closures.len() - 1
    }

    /// Starts a function on top of the running one, with the same register
    /// window: a frame for the closure with handle `h` goes on the stack.
    /// Without a running frame the window starts at register 0.
    pub fn run_closure(&mut self, h: usize)
        ensures
            final(self)@ == (State {
                frames: old(self)@.frames.push(
                    CallInfo {
                        closure: h,
                        is_builtin: false,
                        base: if old(self)@.frames.len() > 0 {
                            old(self)@.frames.last().base
                        } else {
                            0
                        },
                        pc: 0,
                    },
                ),
                ..old(self)@
            }),
    {
        let n: usize = self.call_stack.len();
        let base: usize = if n > 0 {
            self.call_stack[n - 1].base
        } else {
            0
        };
        self.call_stack.push(CallInfo::new(h, base));
    }
}

} // verus!

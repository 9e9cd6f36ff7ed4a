use vstd::prelude::*;
use vstd::string::*;
use crate::common::closure::{closure_views, Closure, ClosureView};
use crate::common::text::{push_str, string_of};
use crate::common::value::Type;
use crate::vm::state::CallInfo;

verus! {

/// What can go wrong while a program runs.
#[derive(Debug, Clone, PartialEq)]
pub enum RuntimeError {
    /// An operation met a value of the wrong kind: what was attempted, the
    /// kind of the first operand and, for an operation on two, of the second.
    TypeError(String, Type, Option<Type>),
    /// An error that a native function raised, with its message.
    CustomError(String),
    StackOverflow,
    ArrayIdxBound,
    ArrayIdxFloat,
    ArrayIdxNeg,
    TableIdxNil,
    TableIdxNaN,
}

/// What a [`RuntimeError`] is, with text as sequences of characters.
pub ghost enum Fault {
    TypeError(Seq<char>, Type, Option<Type>),
    CustomError(Seq<char>),
    StackOverflow,
    ArrayIdxBound,
    ArrayIdxFloat,
    ArrayIdxNeg,
    TableIdxNil,
    TableIdxNaN,
}

impl View for RuntimeError {
    type V = Fault;

    open spec fn view(&self) -> Fault {
        match *self {
            RuntimeError::TypeError(s, a, b) => Fault::TypeError(s@, a, b),
            RuntimeError::CustomError(s) => Fault::CustomError(s@),
            RuntimeError::StackOverflow => Fault::StackOverflow,
            RuntimeError::ArrayIdxBound => Fault::ArrayIdxBound,
            RuntimeError::ArrayIdxFloat => Fault::ArrayIdxFloat,
            RuntimeError::ArrayIdxNeg => Fault::ArrayIdxNeg,
            RuntimeError::TableIdxNil => Fault::TableIdxNil,
            RuntimeError::TableIdxNaN => Fault::TableIdxNaN,
        }
    }
}

/// What is attempted where arithmetic meets a value that is no number.
pub open spec fn arith_action() -> Seq<char> {
    "perform an arithmetic on"@
}

/// What is attempted where an order is asked of values that have none.
pub open spec fn order_action() -> Seq<char> {
    "compare"@
}

/// What is attempted where a value that is no function is called.
pub open spec fn call_action() -> Seq<char> {
    "call"@
}

/// What is attempted where a value that is no container is indexed.
pub open spec fn index_action() -> Seq<char> {
    "index"@
}

/// What is attempted where an array is indexed by a value that is no number.
pub open spec fn array_index_action() -> Seq<char> {
    "index an array with"@
}

/// The message of an error.
pub open spec fn message(f: Fault) -> Seq<char> {
    match f {
        Fault::TypeError(action, a, Some(b)) => "attempt to "@ + action + " a "@ + a.name() + " and "@
            + b.name() + " value"@,
        Fault::TypeError(action, a, None) => "attempt to "@ + action + " a "@ + a.name() + " value"@,
        Fault::CustomError(s) => s,
        Fault::StackOverflow => "stack overflow"@,
        Fault::ArrayIdxBound => "array index out of bounds"@,
        Fault::ArrayIdxFloat => "array index must be an integer"@,
        Fault::ArrayIdxNeg => "array index must be positive"@,
        Fault::TableIdxNil => "table index is nil"@,
        Fault::TableIdxNaN => "table index is NaN"@,
    }
}

impl RuntimeError {
    /// An error about the kind of one operand.
    pub fn of_type(action: &str, a: Type) -> (e: RuntimeError)
        ensures
            e@ == Fault::TypeError(action@, a, None),
    {
        RuntimeError::TypeError(String::from_str(action), a, None)
    }

    /// An error about the kinds of two operands.
    pub fn of_types(action: &str, a: Type, b: Type) -> (e: RuntimeError)
        ensures
            e@ == Fault::TypeError(action@, a, Some(b)),
    {
        RuntimeError::TypeError(String::from_str(action), a, Some(b))
    }

    /// Copies an error.
    pub fn copy(&self) -> (e: RuntimeError)
        ensures
            e@ == self@,
    {
        match self {
            RuntimeError::TypeError(s, a, b) => RuntimeError::TypeError(s.clone(), *a, *b),
            RuntimeError::CustomError(s) => RuntimeError::CustomError(s.clone()),
            RuntimeError::StackOverflow => RuntimeError::StackOverflow,
            RuntimeError::ArrayIdxBound => RuntimeError::ArrayIdxBound,
            RuntimeError::ArrayIdxFloat => RuntimeError::ArrayIdxFloat,
            RuntimeError::ArrayIdxNeg => RuntimeError::ArrayIdxNeg,
            RuntimeError::TableIdxNil => RuntimeError::TableIdxNil,
            RuntimeError::TableIdxNaN => RuntimeError::TableIdxNaN,
        }
    }

    /// Writes the message of an error.
    pub fn stringify(&self) -> (s: String)
        ensures
            s@ == message(self@),
    {
        let mut out: Vec<char> = Vec::new();
        match self {
            RuntimeError::TypeError(action, a, b) => {
                push_str(&mut out, "attempt to ");
                push_str(&mut out, action.as_str());
                push_str(&mut out, " a ");
                push_str(&mut out, a.as_str());
                match b {
                    Some(b) => {
                        push_str(&mut out, " and ");
                        push_str(&mut out, b.as_str());
                    },
                    None => {},
                }
                push_str(&mut out, " value");
            },
            RuntimeError::CustomError(s) => push_str(&mut out, s.as_str()),
            RuntimeError::StackOverflow => push_str(&mut out, "stack overflow"),
            RuntimeError::ArrayIdxBound => push_str(&mut out, "array index out of bounds"),
            RuntimeError::ArrayIdxFloat => push_str(&mut out, "array index must be an integer"),
            RuntimeError::ArrayIdxNeg => push_str(&mut out, "array index must be positive"),
            RuntimeError::TableIdxNil => push_str(&mut out, "table index is nil"),
            RuntimeError::TableIdxNaN => push_str(&mut out, "table index is NaN"),
        }
        assert(out@ =~= message(self@));
        string_of(&out)
    }
}

/// One line of a stack trace.
pub open spec fn trace_line(file: Seq<char>, name: Seq<char>) -> Seq<char> {
    "\t["@ + file + "] in function "@ + name + "\n"@
}

/// The line of a frame in a stack trace: the file and the name of its
/// closure. A frame whose closure does not exist shows question marks.
pub open spec fn frame_line(closures: Seq<ClosureView>, f: CallInfo) -> Seq<char> {
    if f.closure < closures.len() {
        trace_line(closures[f.closure as int].file_name, closures[f.closure as int].name)
    } else {
        trace_line("?"@, "?"@)
    }
}

/// The lines of the first `n` frames, the latest first, without the frames
/// of the closure `skip`.
pub open spec fn lines_below(frames: Seq<CallInfo>, closures: Seq<ClosureView>, n: int, skip: Option<usize>) -> Seq<
    char,
>
    decreases n,
{
    if n <= 0 || n > frames.len() {
        Seq::empty()
    } else {
        (if skip == Some(frames[n - 1].closure) {
            Seq::empty()
        } else {
            frame_line(closures, frames[n - 1])
        }) + lines_below(frames, closures, n - 1, skip)
    }
}

/// The stack trace of an error: a heading and the frames, the latest first.
/// Of a stack overflow the trace shows the frame that overflowed once, then
/// a line of dots, then the frames of other closures.
pub open spec fn trace_of(f: Fault, frames: Seq<CallInfo>, closures: Seq<ClosureView>) -> Seq<char> {
    "stack trace:\n"@ + (if f is StackOverflow && frames.len() > 0 {
        frame_line(closures, frames.last()) + "\t...\n"@ + lines_below(
            frames,
            closures,
            frames.len() as int,
            Some(frames.last().closure),
        )
    } else {
        lines_below(frames, closures, frames.len() as int, None)
    })
}

/// An error with its stack trace: the message, a line break, the trace.
pub open spec fn error_text(f: Fault, frames: Seq<CallInfo>, closures: Seq<ClosureView>) -> Seq<char> {
    message(f) + "\n"@ + trace_of(f, frames, closures)
}

/// Appends the lines of the first `n` frames, the latest first, without
/// the frames of the closure `skip`.
fn push_lines(out: &mut Vec<char>, call_stack: &Vec<CallInfo>, closures: &Vec<Closure>, skip: Option<usize>)
    ensures
        final(out)@ == old(out)@ + lines_below(call_stack@, closure_views(closures@), call_stack.len() as int, skip),
{
    let mut n: usize = call_stack.len();
    let ghost all = lines_below(call_stack@, closure_views(closures@), call_stack.len() as int, skip);
    assert(out@ + all =~= old(out)@ + all);
    while n > 0
        invariant
            n <= call_stack.len(),
            out@ + lines_below(call_stack@, closure_views(closures@), n as int, skip) == old(out)@ + all,
        decreases n,
    {
        let ghost before = out@;
        let ghost rest = lines_below(call_stack@, closure_views(closures@), n - 1, skip);
        let skipped: bool = match skip {
            Some(h) => h == call_stack[n - 1].closure,
            None => false,
        };
        if !skipped {
            RuntimeError::fmt_trace(out, &call_stack[n - 1], closures);
        }
        n -= 1;
        assert(out@ + rest =~= before + lines_below(call_stack@, closure_views(closures@), n + 1, skip));
    }
    assert(out@ + Seq::<char>::empty() =~= out@);
}

impl RuntimeError {
    /// Appends the line of a frame in a stack trace.
    pub fn fmt_trace(out: &mut Vec<char>, info: &CallInfo, closures: &Vec<Closure>)
        ensures
            final(out)@ == old(out)@ + frame_line(closure_views(closures@), *info),
    {
        push_str(out, "\t[");
        if info.closure < closures.len() {
            push_str(out, closures[info.closure].file_name.as_str());
        } else {
            push_str(out, "?");
        }
        push_str(out, "] in function ");
        if info.closure < closures.len() {
            push_str(out, closures[info.closure].name.as_str());
        } else {
            push_str(out, "?");
        }
        push_str(out, "\n");
        assert(out@ =~= old(out)@ + frame_line(closure_views(closures@), *info));
    }

    /// Writes the stack trace of this error for the given call stack.
    pub fn trace(&self, call_stack: &Vec<CallInfo>, closures: &Vec<Closure>) -> (s: String)
        ensures
            s@ == trace_of(self@, call_stack@, closure_views(closures@)),
    {
        let mut out: Vec<char> = Vec::new();
        push_str(&mut out, "stack trace:\n");
        let overflow: bool = match self {
            RuntimeError::StackOverflow => true,
            _ => false,
        };
        if overflow && call_stack.len() > 0 {
            let top: &CallInfo = &call_stack[call_stack.len() - 1];
            RuntimeError::fmt_trace(&mut out, top, closures);
            push_str(&mut out, "\t...\n");
            push_lines(&mut out, call_stack, closures, Some(top.closure));
        } else {
            push_lines(&mut out, call_stack, closures, None);
        }
        assert(out@ =~= trace_of(self@, call_stack@, closure_views(closures@)));
        string_of(&out)
    }

    /// Writes this error with its stack trace.
    pub fn to_error(&self, call_stack: &Vec<CallInfo>, closures: &Vec<Closure>) -> (s: String)
        ensures
            s@ == error_text(self@, call_stack@, closure_views(closures@)),
    {
        let mut out: Vec<char> = Vec::new();
        push_str(&mut out, self.stringify().as_str());
        push_str(&mut out, "\n");
        push_str(&mut out, self.trace(call_stack, closures).as_str());
        assert(out@ =~= error_text(self@, call_stack@, closure_views(closures@)));
        string_of(&out)
    }
}

} // verus!

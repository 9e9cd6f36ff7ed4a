use vstd::prelude::*;
use vstd::string::*;
use crate::common::value::{copy_values, vals, Val, Value};

verus! {

/// A compiled function. The compiler fills everything but `upvals`, which
/// the machine fills whenever the function is called.
#[derive(Debug, Clone, PartialEq)]
pub struct Closure {
    /// The name shown in traces and listings.
    pub name: String,
    /// The file the function was compiled from.
    pub file_name: String,
    /// For each instruction the source line it came from.
    pub lines: Vec<usize>,
    /// The captured variables: for each the register of the enclosing
    /// function that it was taken from, and its value.
    pub upvals: Vec<(u8, Value)>,
    /// The instructions.
    pub code: Vec<u32>,
    /// The constant pool.
    pub consts: Vec<Value>,
    /// The number of parameters.
    pub nparams: u8,
}

/// What a [`Closure`] is.
pub ghost struct ClosureView {
    pub name: Seq<char>,
    pub file_name: Seq<char>,
    pub lines: Seq<usize>,
    pub upvals: Seq<(u8, Val)>,
    pub code: Seq<u32>,
    pub consts: Seq<Val>,
    pub nparams: u8,
}

/// The views of a sequence of captured variables.
pub open spec fn upval_views(s: Seq<(u8, Value)>) -> Seq<(u8, Val)> {
    Seq::new(s.len(), |i: int| (s[i].0, s[i].1@))
}

/// The views of a sequence of closures.
pub open spec fn closure_views(s: Seq<Closure>) -> Seq<ClosureView> {
    Seq::new(s.len(), |i: int| s[i]@)
}

impl View for Closure {
    type V = ClosureView;

    open spec fn view(&self) -> ClosureView {
        ClosureView {
            name: self.name@,
            file_name: self.file_name@,
            lines: self.lines@,
            upvals: upval_views(self.upvals@),
            code: self.code@,
            consts: vals(self.consts@),
            nparams: self.nparams,
        }
    }
}

/// The name of a function that was given none.
pub open spec fn anonymous() -> Seq<char> {
    "<anonymous>"@
}

impl Closure {
    /// An empty function of the given file, without a name of its own.
    pub fn new(file_name: String) -> (c: Closure)
        ensures
            c@ == (ClosureView {
                name: anonymous(),
                file_name: file_name@,
                lines: Seq::empty(),
                upvals: Seq::empty(),
                code: Seq::empty(),
                consts: Seq::empty(),
                nparams: 0,
            }),
    {
        let c = Closure {
            name: String::from_str("<anonymous>"),
            file_name,
            lines: Vec::new(),
            upvals: Vec::new(),
            code: Vec::new(),
            consts: Vec::new(),
            nparams: 0,
        };
        assert(upval_views(c.upvals@) =~= Seq::empty());
        assert(vals(c.consts@) =~= Seq::empty());
        c
    }

    /// Copies a function with all it holds.
    pub fn copy(&self) -> (c: Closure)
        ensures
            c@ == self@,
    {
        let c = Closure {
            name: self.name.clone(),
            file_name: self.file_name.clone(),
            lines: self.lines.clone(),
            upvals: copy_upvals(&self.upvals),
            code: self.code.clone(),
            consts: copy_values(&self.consts),
            nparams: self.nparams,
        };
        assert(c.lines@ =~= self.lines@);
        assert(c.code@ =~= self.code@);
        c
    }
}

/// Copies a vector of captured variables.
pub fn copy_upvals(v: &Vec<(u8, Value)>) -> (r: Vec<(u8, Value)>)
    ensures
        upval_views(r@) == upval_views(v@),
        r.len() == v.len(),
{
    let mut r: Vec<(u8, Value)> = Vec::new();
    let mut i: usize = 0;
    while i < v.len()
        invariant
            i <= v.len(),
            r.len() == i,
            forall|j: int| 0 <= j < i ==> r@[j].0 == v@[j].0 && r@[j].1@ == v@[j].1@,
        decreases v.len() - i,
    {
        r.push((v[i].0, v[i].1.copy()));
        i += 1;
    }
    assert(upval_views(r@) =~= upval_views(v@));
    r
}

} // verus!

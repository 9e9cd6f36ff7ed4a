use vstd::prelude::*;
use crate::common::number::{integral, is_integral, negative, truncate, whole_part, SIGN};
use crate::common::value::{type_of, vals, Type, Val, Value};
use crate::vm::error::{array_index_action, Fault, RuntimeError};

verus! {

/// An array: an ordered sequence of values. The machine keeps every array
/// and hands out its handle, so that all holders of the handle see one
/// array.
#[derive(Debug, Clone, PartialEq)]
pub struct Array {
    pub vec: Vec<Value>,
}

impl View for Array {
    type V = Seq<Val>;

    open spec fn view(&self) -> Seq<Val> {
        vals(self.vec@)
    }
}

/// The views of a sequence of arrays.
pub open spec fn array_views(s: Seq<Array>) -> Seq<Seq<Val>> {
    Seq::new(s.len(), |i: int| s[i]@)
}

/// The position that a value names in an array. Only a number that is whole
/// and not negative names one: a number with a fractional part, and a NaN,
/// is refused as no integer; a whole number with the sign bit set, the
/// negative zero among them, as negative; a value of another kind as a
/// type error. A number too large for a position names the largest one.
pub open spec fn index_of(idx: Val) -> Result<usize, Fault> {
    match idx {
        Val::Number(b) => {
            if !integral(b) {
                Err(Fault::ArrayIdxFloat)
            } else if negative(b) {
                Err(Fault::ArrayIdxNeg)
            } else if whole_part(b) > usize::MAX {
                Ok(usize::MAX)
            } else {
                Ok(whole_part(b) as usize)
            }
        },
        _ => Err(Fault::TypeError(array_index_action(), type_of(idx), None)),
    }
}

/// The array after a value was stored at a position: at the end the array
/// grows by one, inside it the old value is replaced.
pub open spec fn stored_at(a: Seq<Val>, pos: usize, val: Val) -> Result<Seq<Val>, Fault> {
    if pos == a.len() {
        Ok(a.push(val))
    } else if pos < a.len() {
        Ok(a.update(pos as int, val))
    } else {
        Err(Fault::ArrayIdxBound)
    }
}

/// The value at a position, `nil` past the end.
pub open spec fn value_at(a: Seq<Val>, pos: usize) -> Val {
    if pos < a.len() {
        a[pos as int]
    } else {
        Val::Nil
    }
}

/// Finds the position that a value names in an array.
pub fn position(idx: &Value) -> (r: Result<usize, RuntimeError>)
    ensures
        r is Ok <==> index_of(idx@) is Ok,
        r matches Ok(p) ==> index_of(idx@) == Ok::<usize, Fault>(p),
        r matches Err(e) ==> index_of(idx@) == Err::<usize, Fault>(e@),
{
    match idx {
        Value::Number(b) => {
            let b: u64 = *b;
            if !is_integral(b) {
                Err(RuntimeError::ArrayIdxFloat)
            } else if b & SIGN != 0 {
                Err(RuntimeError::ArrayIdxNeg)
            } else {
                let w: u64 = truncate(b);
                if w > usize::MAX as u64 {
                    Ok(usize::MAX)
                } else {
                    Ok(w as usize)
                }
            }
        },
        _ => Err(RuntimeError::of_type("index an array with", Type::of(idx))),
    }
}

impl Array {
    /// An array of the given values.
    pub fn new(vec: Vec<Value>) -> (a: Array)
        ensures
            a@ == vals(vec@),
    {
        Array { vec }
    }

    /// Finds the position that a value names, see [`index_of`].
    pub fn validate_index(&self, idx: &Value) -> (r: Result<usize, RuntimeError>)
        ensures
            r is Ok <==> index_of(idx@) is Ok,
            r matches Ok(p) ==> index_of(idx@) == Ok::<usize, Fault>(p),
            r matches Err(e) ==> index_of(idx@) == Err::<usize, Fault>(e@),
    {
        position(idx)
    }

    /// Stores a value at the position that `idx` names: at the end of the
    /// array or inside it. A position past the end is out of bounds, and
    /// then the array is unchanged, as it is where `idx` names no position.
    pub fn insert(&mut self, idx: &Value, val: Value) -> (r: Result<(), RuntimeError>)
        ensures
            match index_of(idx@) {
                Ok(p) => match stored_at(old(self)@, p, val@) {
                    Ok(a) => r is Ok && final(self)@ == a,
                    Err(f) => r matches Err(e) && e@ == f && final(self)@ == old(self)@,
                },
                Err(f) => r matches Err(e) && e@ == f && final(self)@ == old(self)@,
            },
    {
        let pos: usize = match self.validate_index(idx) {
            Ok(p) => p,
            Err(e) => {
                return Err(e);
            },
        };
        let len: usize = self.vec.len();
        if pos == len {
            self.vec.push(val);
            assert(self@ =~= old(self)@.push(val@));
            Ok(())
        } else if pos < len {
            self.vec.set(pos, val);
            assert(self@ =~= old(self)@.update(pos as int, val@));
            Ok(())
        } else {
            Err(RuntimeError::ArrayIdxBound)
        }
    }

    /// Reads the value at the position that `idx` names, `nil` past the end.
    pub fn get(&self, idx: &Value) -> (r: Result<Value, RuntimeError>)
        ensures
            match index_of(idx@) {
                Ok(p) => r matches Ok(v) && v@ == value_at(self@, p),
                Err(f) => r matches Err(e) && e@ == f,
            },
    {
        let pos: usize = match self.validate_index(idx) {
            Ok(p) => p,
            Err(e) => {
                return Err(e);
            },
        };
        if pos < self.vec.len() {
            Ok(self.vec[pos].copy())
        } else {
            Ok(Value::Nil)
        }
    }

    /// The number of values in the array.
    pub fn len(&self) -> (n: usize)
        ensures
            n == self@.len(),
    {
        self.vec.len()
    }
}

} // verus!

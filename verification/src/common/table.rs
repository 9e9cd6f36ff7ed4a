use vstd::prelude::*;
use crate::common::number::{is_nan, nan};
use crate::common::text::{chars_of, same_chars};
use crate::common::value::{Val, Value};
use crate::vm::error::{Fault, RuntimeError};

verus! {

/// A table: a mapping from keys to values, kept as its entries in the order
/// in which their keys first came. No key occurs twice. The machine keeps
/// every table and hands out its handle.
#[derive(Debug, Clone, PartialEq)]
pub struct Table {
    pub tbl: Vec<(Value, Value)>,
}

/// The views of a sequence of entries.
pub open spec fn entry_views(s: Seq<(Value, Value)>) -> Seq<(Val, Val)> {
    Seq::new(s.len(), |i: int| (s[i].0@, s[i].1@))
}

impl View for Table {
    type V = Seq<(Val, Val)>;

    open spec fn view(&self) -> Seq<(Val, Val)> {
        entry_views(self.tbl@)
    }
}

/// The views of a sequence of tables.
pub open spec fn table_views(s: Seq<Table>) -> Seq<Seq<(Val, Val)>> {
    Seq::new(s.len(), |i: int| s[i]@)
}

/// Why a value cannot be a key, if it cannot: `nil` and NaN are no keys.
pub open spec fn key_fault(k: Val) -> Option<Fault> {
    match k {
        Val::Nil => Some(Fault::TableIdxNil),
        Val::Number(b) => if nan(b) {
            Some(Fault::TableIdxNaN)
        } else {
            None
        },
        _ => None,
    }
}

/// The place of a key among the entries from `from` on, and the number of
/// entries where the key is not among them. Keys are the same if they are
/// the same text, the same boolean, the same object, or numbers with the
/// same bits: the two zeros are different keys.
pub open spec fn find(e: Seq<(Val, Val)>, k: Val, from: int) -> int
    decreases e.len() - from,
{
    if from < 0 || from >= e.len() {
        e.len() as int
    } else if e[from].0 == k {
        from
    } else {
        find(e, k, from + 1)
    }
}

/// The value under a key, `nil` where the key has no entry.
pub open spec fn lookup(e: Seq<(Val, Val)>, k: Val) -> Val {
    if find(e, k, 0) < e.len() {
        e[find(e, k, 0)].1
    } else {
        Val::Nil
    }
}

/// The entries after a value was put under a key: the key's entry has the
/// new value, or is new at the end.
pub open spec fn put(e: Seq<(Val, Val)>, k: Val, v: Val) -> Seq<(Val, Val)> {
    if find(e, k, 0) < e.len() {
        e.update(find(e, k, 0), (k, v))
    } else {
        e.push((k, v))
    }
}

/// No key occurs twice, and every key can be one.
pub open spec fn distinct(e: Seq<(Val, Val)>) -> bool {
    &&& forall|i: int, j: int| 0 <= i < j < e.len() ==> e[i].0 != e[j].0
    &&& forall|i: int| 0 <= i < e.len() ==> key_fault(#[trigger] e[i].0) is None
}

/// What `find` returns is the first place of the key, if it has one.
pub proof fn lemma_find(e: Seq<(Val, Val)>, k: Val, from: int)
    requires
        0 <= from,
    ensures
        from <= find(e, k, from) || find(e, k, from) == e.len(),
        find(e, k, from) <= e.len(),
        find(e, k, from) < e.len() ==> e[find(e, k, from)].0 == k,
        forall|i: int| from <= i < find(e, k, from) ==> e[i].0 != k,
    decreases e.len() - from,
{
    if from < e.len() && e[from].0 != k {
        lemma_find(e, k, from + 1);
    }
}

/// Putting a value under a key that can be one keeps the keys distinct.
pub proof fn lemma_put_distinct(e: Seq<(Val, Val)>, k: Val, v: Val)
    requires
        distinct(e),
        key_fault(k) is None,
    ensures
        distinct(put(e, k, v)),
        lookup(put(e, k, v), k) == v,
{
    lemma_find(e, k, 0);
    let r = put(e, k, v);
    lemma_find(r, k, 0);
    let at = find(e, k, 0);
    assert(r[at].0 == k);
    assert(find(r, k, 0) == at) by {
        if find(r, k, 0) < at {
            assert(e[find(r, k, 0)].0 != k);
        }
    }
}

/// Tells whether two values are the same key.
pub fn same_key(a: &Value, b: &Value) -> (r: bool)
    ensures
        r == (a@ == b@),
{
    match (a, b) {
        (Value::String(x), Value::String(y)) => {
            let xs: Vec<char> = chars_of(x.as_str());
            let ys: Vec<char> = chars_of(y.as_str());
            same_chars(&xs, &ys)
        },
        (Value::Number(x), Value::Number(y)) => *x == *y,
        (Value::Bool(x), Value::Bool(y)) => *x == *y,
        (Value::Closure(x), Value::Closure(y)) => *x == *y,
        (Value::NativeFunc(x), Value::NativeFunc(y)) => *x == *y,
        (Value::Array(x), Value::Array(y)) => *x == *y,
        (Value::Table(x), Value::Table(y)) => *x == *y,
        (Value::Nil, Value::Nil) => true,
        _ => false,
    }
}

impl Table {
    /// A table without entries.
    pub fn new() -> (t: Table)
        ensures
            t@ == Seq::<(Val, Val)>::empty(),
            distinct(t@),
    {
        let t = Table { tbl: Vec::new() };
        assert(t@ =~= Seq::<(Val, Val)>::empty());
        t
    }

    /// Refuses the values that cannot be keys: `nil` and NaN.
    pub fn validate_index(&self, idx: &Value) -> (r: Result<(), RuntimeError>)
        ensures
            match key_fault(idx@) {
                Some(f) => r matches Err(e) && e@ == f,
                None => r is Ok,
            },
    {
        match idx {
            Value::Nil => Err(RuntimeError::TableIdxNil),
            Value::Number(b) => {
                if is_nan(*b) {
                    Err(RuntimeError::TableIdxNaN)
                } else {
                    Ok(())
                }
            },
            _ => Ok(()),
        }
    }

    /// Finds the place of a key's entry, and the number of entries where it
    /// has none.
    pub fn position(&self, idx: &Value) -> (at: usize)
        ensures
            at == find(self@, idx@, 0),
            at <= self@.len(),
    {
        let mut i: usize = 0;
        while i < self.tbl.len()
            invariant
                i <= self.tbl.len(),
                find(self@, idx@, 0) == find(self@, idx@, i as int),
            decreases self.tbl.len() - i,
        {
            if same_key(&self.tbl[i].0, idx) {
                return i;
            }
            i += 1;
        }
        i
    }

    /// Puts a value under a key. A key that cannot be one is refused, and
    /// the table is then unchanged.
    pub fn insert(&mut self, idx: Value, val: Value) -> (r: Result<(), RuntimeError>)
        ensures
            match key_fault(idx@) {
                Some(f) => r matches Err(e) && e@ == f && final(self)@ == old(self)@,
                None => r is Ok && final(self)@ == put(old(self)@, idx@, val@),
            },
            distinct(old(self)@) ==> distinct(final(self)@),
    {
        match self.validate_index(&idx) {
            Err(e) => {
                return Err(e);
            },
            Ok(()) => {},
        }
        proof {
            if distinct(self@) {
                lemma_put_distinct(self@, idx@, val@);
            }
        }
        let at: usize = self.position(&idx);
        if at < self.tbl.len() {
            self.tbl.set(at, (idx, val));
            assert(self@ =~= old(self)@.update(at as int, (idx@, val@)));
        } else {
            self.tbl.push((idx, val));
            assert(self@ =~= old(self)@.push((idx@, val@)));
        }
        Ok(())
    }

    /// Reads the value under a key, `nil` where the key has no entry. A key
    /// that cannot be one is refused.
    pub fn get(&self, idx: &Value) -> (r: Result<Value, RuntimeError>)
        ensures
            match key_fault(idx@) {
                Some(f) => r matches Err(e) && e@ == f,
                None => r matches Ok(v) && v@ == lookup(self@, idx@),
            },
    {
        match self.validate_index(idx) {
            Err(e) => {
                return Err(e);
            },
            Ok(()) => {},
        }
        let at: usize = self.position(idx);
        if at < self.tbl.len() {
            Ok(self.tbl[at].1.copy())
        } else {
            Ok(Value::Nil)
        }
    }

    /// The number of entries.
    pub fn len(&self) -> (n: usize)
        ensures
            n == self@.len(),
    {
        self.tbl.len()
    }
}

} // verus!

//! The native functions of the table `string`.

use vstd::prelude::*;
use vstd::string::*;
use vstd::utf8::{encode_utf8, is_char_boundary};
use crate::common::number::{from_whole, of_whole};
use crate::common::text::{
    lowercase, split_by, split_text, to_lower, to_upper, trim, trimmed, uppercase,
};
use crate::common::value::{vals, Val, Value};
use crate::vm::env::aux::{expect_number, expect_string, native_gave, optional_number, optional_string};
use crate::vm::env::globals::{count_of, to_count};
use crate::vm::error::{Fault, RuntimeError};
use crate::vm::machine::VM;
use crate::vm::state::State;

verus! {

/// The message of `sub` for a part that would cut a character in two.
pub open spec fn bad_cut() -> Seq<char> {
    "byte index is not a character boundary"@
}

/// A text can be cut at the bytes `start` and `end`: neither lies inside
/// the bytes of a character.
pub open spec fn cuts(bytes: Seq<u8>, start: int, end: int) -> bool {
    &&& is_char_boundary(bytes, end)
    &&& is_char_boundary(bytes, start)
    &&& is_char_boundary(bytes.subrange(0, end), start)
}

/// The texts of a sequence of parts, as values.
pub open spec fn text_vals(parts: Seq<Seq<char>>) -> Seq<Val> {
    Seq::new(parts.len(), |i: int| Val::String(parts[i]))
}

impl State {
    /// `string.upper(text)`.
    pub open spec fn native_upper(self) -> Result<(State, Val), Fault> {
        match self.take_string() {
            Err(f) => Err(f),
            Ok((s, t)) => Ok((s, Val::String(uppercase(t)))),
        }
    }

    /// `string.lower(text)`.
    pub open spec fn native_lower(self) -> Result<(State, Val), Fault> {
        match self.take_string() {
            Err(f) => Err(f),
            Ok((s, t)) => Ok((s, Val::String(lowercase(t)))),
        }
    }

    /// `string.trim(text)`.
    pub open spec fn native_trim(self) -> Result<(State, Val), Fault> {
        match self.take_string() {
            Err(f) => Err(f),
            Ok((s, t)) => Ok((s, Val::String(trimmed(t)))),
        }
    }

    /// `string.split(text, pattern)`: a new array of the parts of the text
    /// between the places where the pattern occurs. Without a pattern the
    /// text is split at spaces.
    pub open spec fn native_split(self) -> Result<(State, Val), Fault> {
        match self.take_string() {
            Err(f) => Err(f),
            Ok((s1, t)) => match s1.take_string_or(" "@) {
                Err(f) => Err(f),
                Ok((s2, pat)) => Ok(
                    (
                        State { arrays: s2.arrays.push(text_vals(split_by(t, pat))), ..s2 },
                        Val::Array(s2.arrays.len() as usize),
                    ),
                ),
            },
        }
    }

    /// `string.byte(text, i)`: the byte of the text at position `i`, and 0
    /// past its end. Without `i` the position is 0.
    pub open spec fn native_byte(self) -> Result<(State, Val), Fault> {
        match self.take_string() {
            Err(f) => Err(f),
            Ok((s1, t)) => match s1.take_number_or(0) {
                Err(f) => Err(f),
                Ok((s2, bits)) => {
                    let i = count_of(bits, usize::MAX as u64) as int;
                    let bytes = encode_utf8(t);
                    Ok(
                        (
                            s2,
                            Val::Number(
                                of_whole(
                                    if i < bytes.len() {
                                        bytes[i] as u64
                                    } else {
                                        0
                                    },
                                ),
                            ),
                        ),
                    )
                },
            },
        }
    }

    /// `string.sub(text, start, end)`: the part of the text from the byte
    /// `start` up to the byte `end`, which is the end of the text where it
    /// is not given. Both are at most the length of the text, and `start`
    /// is at most `end`. A part that would cut a character in two is an
    /// error.
    pub open spec fn native_sub(self) -> Result<(State, Seq<u8>), Fault> {
        match self.take_string() {
            Err(f) => Err(f),
            Ok((s1, t)) => {
                let bytes = encode_utf8(t);
                match s1.take_number() {
                    Err(f) => Err(f),
                    Ok((s2, from)) => match s2.take_number_or(of_whole(bytes.len() as u64)) {
                        Err(f) => Err(f),
                        Ok((s3, to)) => {
                            let len = bytes.len() as int;
                            let e0 = count_of(to, usize::MAX as u64) as int;
                            let end = if e0 > len {
                                len
                            } else {
                                e0
                            };
                            let b0 = count_of(from, usize::MAX as u64) as int;
                            let start = if b0 > end {
                                end
                            } else {
                                b0
                            };
                            if cuts(bytes, start, end) {
                                Ok((s3, bytes.subrange(start, end)))
                            } else {
                                Err(Fault::CustomError(bad_cut()))
                            }
                        },
                    },
                }
            },
        }
    }
}

/// `string.upper(text)`.
pub fn str_upper(vm: &mut VM) -> (r: Result<Value, RuntimeError>)
    ensures
        native_gave(r, *final(vm), old(vm)@.native_upper()),
{
    match expect_string(vm) {
        Err(e) => Err(e),
        Ok(s) => Ok(Value::String(to_upper(s.as_str()))),
    }
}

/// `string.lower(text)`.
pub fn str_lower(vm: &mut VM) -> (r: Result<Value, RuntimeError>)
    ensures
        native_gave(r, *final(vm), old(vm)@.native_lower()),
{
    match expect_string(vm) {
        Err(e) => Err(e),
        Ok(s) => Ok(Value::String(to_lower(s.as_str()))),
    }
}

/// `string.trim(text)`.
pub fn str_trim(vm: &mut VM) -> (r: Result<Value, RuntimeError>)
    ensures
        native_gave(r, *final(vm), old(vm)@.native_trim()),
{
    match expect_string(vm) {
        Err(e) => Err(e),
        Ok(s) => Ok(Value::String(String::from_str(trim(s.as_str())))),
    }
}

/// `string.split(text, pattern)`.
pub fn str_split(vm: &mut VM) -> (r: Result<Value, RuntimeError>)
    ensures
        native_gave(r, *final(vm), old(vm)@.native_split()),
{
    let text: String = match expect_string(vm) {
        Ok(s) => s,
        Err(e) => {
            return Err(e);
        },
    };
    let pat: String = match optional_string(vm, String::from_str(" ")) {
        Ok(s) => s,
        Err(e) => {
            return Err(e);
        },
    };
    let parts: Vec<&str> = split_text(text.as_str(), pat.as_str());
    let items: Vec<Value> = text_values(&parts);
    assert(vals(items@) =~= text_vals(split_by(text@, pat@)));
    Ok(vm.new_array(items))
}

/// Makes values of texts: each text becomes a value, in order.
pub fn text_values(parts: &Vec<&str>) -> (items: Vec<Value>)
    ensures
        items.len() == parts.len(),
        forall|j: int| 0 <= j < items.len() ==> (#[trigger] items@[j])@ == Val::String(parts@[j]@),
{
    let mut items: Vec<Value> = Vec::new();
    let mut i: usize = 0;
    while i < parts.len()
        invariant
            i <= parts.len(),
            items.len() == i,
            forall|j: int| 0 <= j < i ==> (#[trigger] items@[j])@ == Val::String(parts@[j]@),
        decreases parts.len() - i,
    {
        items.push(Value::String(String::from_str(parts[i])));
        i += 1;
    }
    items
}

/// `string.byte(text, i)`.
pub fn str_byte(vm: &mut VM) -> (r: Result<Value, RuntimeError>)
    ensures
        native_gave(r, *final(vm), old(vm)@.native_byte()),
{
    let text: String = match expect_string(vm) {
        Ok(s) => s,
        Err(e) => {
            return Err(e);
        },
    };
    let bits: u64 = match optional_number(vm, 0) {
        Ok(n) => n,
        Err(e) => {
            return Err(e);
        },
    };
    let i: usize = to_count(bits, usize::MAX as u64) as usize;
    let t: &str = text.as_str();
    let bytes: &[u8] = t.as_bytes();
    assert(t.spec_bytes() == encode_utf8(t@));
    let b: u8 = if i < bytes.len() {
        bytes[i]
    } else {
        0
    };
    Ok(Value::Number(from_whole(b as u64)))
}

/// `string.sub(text, start, end)`.
pub fn str_sub(vm: &mut VM) -> (r: Result<Value, RuntimeError>)
    ensures
        match old(vm)@.native_sub() {
            Ok((s, bytes)) => r matches Ok(Value::String(x)) && encode_utf8(x@) == bytes && final(vm)@ == s,
            Err(f) => r matches Err(e) && e@ == f,
        },
{
    let text: String = match expect_string(vm) {
        Ok(s) => s,
        Err(e) => {
            return Err(e);
        },
    };
    let t: &str = text.as_str();
    let len: usize = t.as_bytes().len();
    assert(t.spec_bytes() == encode_utf8(t@));
    let from: u64 = match expect_number(vm) {
        Ok(n) => n,
        Err(e) => {
            return Err(e);
        },
    };
    let to: u64 = match optional_number(vm, from_whole(len as u64)) {
        Ok(n) => n,
        Err(e) => {
            return Err(e);
        },
    };
    let e0: usize = to_count(to, usize::MAX as u64) as usize;
    let end: usize = if e0 > len {
        len
    } else {
        e0
    };
    let b0: usize = to_count(from, usize::MAX as u64) as usize;
    let start: usize = if b0 > end {
        end
    } else {
        b0
    };
    if !t.is_char_boundary(end) || !t.is_char_boundary(start) {
        return Err(RuntimeError::CustomError(String::from_str("byte index is not a character boundary")));
    }
    let (head, _) = t.split_at(end);
    if !head.is_char_boundary(start) {
        return Err(RuntimeError::CustomError(String::from_str("byte index is not a character boundary")));
    }
    let (_, part) = head.split_at(start);
    let out: String = part.to_owned();
    assert(part.spec_bytes() == encode_utf8(part@));
    assert(part.spec_bytes() =~= encode_utf8(text@).subrange(start as int, end as int));
    Ok(Value::String(out))
}

} // verus!

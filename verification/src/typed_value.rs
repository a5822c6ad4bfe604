//! Tagged machine words exchanged with hosted programs.
//!
//! A `TypedValue` is a type tag and one machine word. For scalars the word is
//! the value itself; for strings, uuids, vectors and structures it is the
//! address of a block that the host allocates (see the application crate).
use vstd::prelude::*;

verus! {

/// Tag of the empty value.
pub const TYPE_NULL: usize = 0;
/// Tag of a boolean.
pub const TYPE_BOOL: usize = 1;
/// Tag of an unsigned 8-bit integer.
pub const TYPE_U8: usize = 2;
/// Tag of a signed 8-bit integer.
pub const TYPE_I8: usize = 3;
/// Tag of an unsigned 16-bit integer.
pub const TYPE_U16: usize = 4;
/// Tag of a signed 16-bit integer.
pub const TYPE_I16: usize = 5;
/// Tag of an unsigned 32-bit integer.
pub const TYPE_U32: usize = 6;
/// Tag of a signed 32-bit integer.
pub const TYPE_I32: usize = 7;
/// Tag of an unsigned 64-bit integer.
pub const TYPE_U64: usize = 8;
/// Tag of a signed 64-bit integer.
pub const TYPE_I64: usize = 9;
/// Tag of a uuid held in a host block.
pub const TYPE_UUID: usize = 10;
/// Tag of a string held in a host block.
pub const TYPE_STRING: usize = 11;
/// Tag of a vector of typed values held in a host block.
pub const TYPE_VECTOR: usize = 12;
/// Tag of a structure of keyed typed values held in a host block.
pub const TYPE_STRUCTURE: usize = 13;

/// A type tag and one machine word.
#[derive(Clone, Copy, PartialEq, Eq, Structural, Debug)]
pub struct TypedValue {
    pub value_type: usize,
    pub value: usize,
}

/// A typed value with a field name, as held in a structure.
#[derive(Clone, Debug)]
pub struct KeyedTypedValue {
    pub key: String,
    pub value_type: usize,
    pub value: usize,
}

impl TypedValue {
    /// The empty value: tag and word are both zero.
    pub fn null() -> (r: TypedValue)
        ensures
            r.value_type == TYPE_NULL,
            r.value == 0,
    {
        TypedValue { value_type: TYPE_NULL, value: 0 }
    }

    /// A boolean: the word is 1 for `true` and 0 for `false`.
    pub fn bool(value: bool) -> (r: TypedValue)
        ensures
            r.value_type == TYPE_BOOL,
            r.value == (if value {
                1usize
            } else {
                0usize
            }),
    {
        TypedValue { value_type: TYPE_BOOL, value: if value {
            1
        } else {
            0
        } }
    }

    /// An unsigned byte, zero-extended to a word.
    pub fn u8(value: u8) -> (r: TypedValue)
        ensures
            r.value_type == TYPE_U8,
            r.value == value as usize,
    {
        TypedValue { value_type: TYPE_U8, value: value as usize }
    }

    /// A signed byte, sign-extended to a word.
    pub fn i8(value: i8) -> (r: TypedValue)
        ensures
            r.value_type == TYPE_I8,
            r.value == value as usize,
    {
        TypedValue { value_type: TYPE_I8, value: value as usize }
    }

    /// An unsigned 16-bit integer, zero-extended to a word.
    pub fn u16(value: u16) -> (r: TypedValue)
        ensures
            r.value_type == TYPE_U16,
            r.value == value as usize,
    {
        TypedValue { value_type: TYPE_U16, value: value as usize }
    }

    /// A signed 16-bit integer, sign-extended to a word.
    pub fn i16(value: i16) -> (r: TypedValue)
        ensures
            r.value_type == TYPE_I16,
            r.value == value as usize,
    {
        TypedValue { value_type: TYPE_I16, value: value as usize }
    }

    /// An unsigned 32-bit integer, zero-extended to a word.
    pub fn u32(value: u32) -> (r: TypedValue)
        ensures
            r.value_type == TYPE_U32,
            r.value == value as usize,
    {
        TypedValue { value_type: TYPE_U32, value: value as usize }
    }

    /// A signed 32-bit integer, sign-extended to a word.
    pub fn i32(value: i32) -> (r: TypedValue)
        ensures
            r.value_type == TYPE_I32,
            r.value == value as usize,
    {
        TypedValue { value_type: TYPE_I32, value: value as usize }
    }

    /// An unsigned 64-bit integer in a word.
    pub fn u64(value: u64) -> (r: TypedValue)
        ensures
            r.value_type == TYPE_U64,
            r.value == value as usize,
    {
        TypedValue { value_type: TYPE_U64, value: value as usize }
    }

    /// A signed 64-bit integer in a word.
    pub fn i64(value: i64) -> (r: TypedValue)
        ensures
            r.value_type == TYPE_I64,
            r.value == value as usize,
    {
        TypedValue { value_type: TYPE_I64, value: value as usize }
    }

    /// The word of an unsigned 64-bit value; only values tagged as such are read.
    pub fn get_as_u64(&self) -> (r: u64)
        requires
            self.value_type == TYPE_U64,
        ensures
            r == self.value as u64,
    {
        self.value as u64
    }

    /// The words of the block that holds a vector: its length, then the tag and
    /// the word of each element in turn.
    pub fn vector_layout(values: &[TypedValue]) -> (words: Vec<usize>)
        requires
            2 * values@.len() + 1 <= usize::MAX,
        ensures
            words@.len() == 2 * values@.len() + 1,
            words@[0] == values@.len(),
            forall|i: int|
                0 <= i < values@.len() ==> words@[2 * i + 1] == (#[trigger] values@[i]).value_type
                    && words@[2 * i + 2] == values@[i].value,
    {
        let n = values.len();
        let mut words: Vec<usize> = Vec::new();
        words.push(n);
        let mut i: usize = 0;
        while i < n
            invariant
                n == values@.len(),
                2 * n + 1 <= usize::MAX,
                i <= n,
                words@.len() == 2 * i + 1,
                words@[0] == n,
                forall|j: int|
                    0 <= j < i ==> words@[2 * j + 1] == (#[trigger] values@[j]).value_type
                        && words@[2 * j + 2] == values@[j].value,
            decreases n - i,
        {
            let v = values[i];
            words.push(v.value_type);
            words.push(v.value);
            i = i + 1;
        }
        words
    }
}

impl KeyedTypedValue {
    /// Names a typed value with `key`.
    pub fn from(key: String, value: TypedValue) -> (r: KeyedTypedValue)
        ensures
            r.key == key,
            r.value_type == value.value_type,
            r.value == value.value,
    {
        KeyedTypedValue { value_type: value.value_type, value: value.value, key: key }
    }
}

/// Reading back a 64-bit value that was stored as one gives the value again.
pub proof fn lemma_u64_round_trip(x: u64)
    requires
        usize::BITS == 64,
    ensures
        ((x as usize) as u64) == x,
{
}

} // verus!

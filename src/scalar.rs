use vstd::prelude::*;

use crate::array::{Array, PrimitiveArray, VarlenArray};
use crate::datatype::DataType;
use crate::error::{ErrorKind, RayexecError, Result};
use crate::validity::mask_view;

verus! {

/// A copy of an optional validity mask.
pub fn copy_mask(mask: &Option<Vec<bool>>) -> (r: Option<Vec<bool>>)
    ensures
        mask_view(r) == mask_view(*mask),
{
    match mask {
        Some(m) => {
            let mut out: Vec<bool> = Vec::new();
            let mut i: usize = 0;
            while i < m.len()
                invariant
                    i <= m@.len(),
                    out@ == m@.subrange(0, i as int),
                decreases m@.len() - i,
            {
                out.push(m[i]);
                i = i + 1;
                proof {
                    assert(out@ =~= m@.subrange(0, i as int));
                }
            }
            proof {
                assert(m@.subrange(0, m@.len() as int) =~= m@);
            }
            Some(out)
        },
        None => None,
    }
}

/// Whether row `i` of a variable-length array holds a value.
pub open spec fn varlen_row_valid(a: VarlenArray, i: int) -> bool {
    match mask_view(a.validity) {
        Some(m) => m[i],
        None => true,
    }
}

/// Applies `f` to each valid value of a variable-length array.
///
/// The output has one row per input row, valid exactly where the input is;
/// a valid row holds `f` of the input's bytes, which is `g` of them, and a
/// null row holds `fill`.
pub fn unary_varlen<U: Copy, F: Fn(&[u8]) -> U>(
    input: &VarlenArray,
    fill: U,
    f: F,
    Ghost(g): Ghost<spec_fn(Seq<u8>) -> U>,
) -> (r: PrimitiveArray<U>)
    requires
        input.wf(),
        forall|b: &[u8]| #[trigger] f.requires((b,)),
        forall|b: &[u8], u: U| #[trigger] f.ensures((b,), u) ==> u == g(b@),
    ensures
        r.wf(),
        r.values@.len() == input.spec_len(),
        mask_view(r.validity) == mask_view(input.validity),
        forall|i: int|
            0 <= i < input.spec_len() ==> #[trigger] r.values@[i] == if varlen_row_valid(*input, i) {
                g(input.value_at(i))
            } else {
                fill
            },
{
    let n = input.len();
    let ghost gv = g;
    let mut values: Vec<U> = Vec::new();
    let mut i: usize = 0;
    while i < n
        invariant
            input.wf(),
            n == input.spec_len(),
            i <= n,
            values@.len() == i,
            forall|b: &[u8]| #[trigger] f.requires((b,)),
            forall|b: &[u8], u: U| #[trigger] f.ensures((b,), u) ==> u == g(b@),
            forall|k: int|
                0 <= k < i ==> #[trigger] values@[k] == if varlen_row_valid(*input, k) {
                    g(input.value_at(k))
                } else {
                    fill
                },
        decreases n - i,
    {
        let valid = match &input.validity {
            Some(m) => m[i],
            None => true,
        };
        if valid {
            let start = input.offsets[i];
            let end = input.offsets[i + 1];
            proof {
                assert(input.offsets@[i as int] <= input.offsets@[i + 1]);
                assert(input.offsets@[i + 1] <= input.offsets@.last());
            }
            let bytes = &input.data.as_slice()[start..end];
            let v = f(bytes);
            values.push(v);
        } else {
            values.push(fill);
        }
        i = i + 1;
    }
    PrimitiveArray { values, validity: copy_mask(&input.validity) }
}

/// The code point of the first character of UTF-8 bytes, 0 when there are
/// none. A malformed lead byte counts as its own value.
pub open spec fn first_code_point(b: Seq<u8>) -> int {
    if b.len() == 0 {
        0
    } else if b[0] < 0x80 {
        b[0] as int
    } else if b[0] >= 0xF0 && b.len() >= 4 {
        (b[0] - 0xF0) * 0x40000 + (b[1] - 0x80) * 0x1000 + (b[2] - 0x80) * 0x40 + (b[3] - 0x80)
    } else if b[0] >= 0xE0 && b.len() >= 3 {
        (b[0] - 0xE0) * 0x1000 + (b[1] - 0x80) * 0x40 + (b[2] - 0x80)
    } else if b[0] >= 0xC0 && b.len() >= 2 {
        (b[0] - 0xC0) * 0x40 + (b[1] - 0x80)
    } else {
        b[0] as int
    }
}

/// The code point of the first character of UTF-8 bytes, 0 when there are
/// none.
pub fn first_code_point_of(b: &[u8]) -> (r: i32)
    ensures
        r == first_code_point(b@),
{
    if b.len() == 0 {
        0
    } else if b[0] < 0x80 {
        b[0] as i32
    } else if b[0] >= 0xF0 && b.len() >= 4 {
        (b[0] as i32 - 0xF0) * 0x40000 + (b[1] as i32 - 0x80) * 0x1000 + (b[2] as i32 - 0x80) * 0x40
            + (b[3] as i32 - 0x80)
    } else if b[0] >= 0xE0 && b.len() >= 3 {
        (b[0] as i32 - 0xE0) * 0x1000 + (b[1] as i32 - 0x80) * 0x40 + (b[2] as i32 - 0x80)
    } else if b[0] >= 0xC0 && b.len() >= 2 {
        (b[0] as i32 - 0xC0) * 0x40 + (b[1] as i32 - 0x80)
    } else {
        b[0] as i32
    }
}

/// The argument types a function accepts and the type it returns.
#[derive(Debug, PartialEq, Eq)]
pub struct Signature {
    pub input: Vec<DataType>,
    pub return_type: DataType,
}

/// The `ascii` function: the code point of the first character of a string,
/// 0 for the empty string.
#[derive(Debug, Clone, Copy, PartialEq, Eq)]
pub struct Ascii;

impl Ascii {
    pub fn name(&self) -> (r: &'static str)
        ensures
            r@ == "ascii"@,
    {
        "ascii"
    }

    /// One string argument, returning a 32-bit integer.
    pub fn signatures(&self) -> (r: Vec<Signature>)
        ensures
            r@.len() == 1,
            r@[0].input@ == seq![DataType::Utf8],
            r@[0].return_type == DataType::Int32,
    {
        let mut input: Vec<DataType> = Vec::new();
        input.push(DataType::Utf8);
        let mut r: Vec<Signature> = Vec::new();
        r.push(Signature { input, return_type: DataType::Int32 });
        proof {
            assert(r@[0].input@ =~= seq![DataType::Utf8]);
        }
        r
    }

    /// The return type for the given argument types: one string argument
    /// gives a 32-bit integer; anything else is refused.
    pub fn plan(&self, inputs: &[DataType]) -> (r: Result<DataType>)
        ensures
            r is Ok <==> (inputs@.len() == 1 && inputs@[0] == DataType::Utf8),
            r matches Ok(t) ==> t == DataType::Int32,
            r matches Err(e) ==> e.kind == ErrorKind::InvalidArgument,
    {
        if inputs.len() != 1 {
            return Err(
                RayexecError::with_kind(ErrorKind::InvalidArgument, "ascii expects one argument"),
            );
        }
        match &inputs[0] {
            DataType::Utf8 => Ok(DataType::Int32),
            _ => Err(
                RayexecError::with_kind(ErrorKind::InvalidArgument, "ascii expects a string argument"),
            ),
        }
    }
}

/// Execution of the `ascii` function.
#[derive(Debug, Clone, Copy, PartialEq, Eq)]
pub struct AsciiImpl;

impl AsciiImpl {
    /// One 32-bit integer per row of the first argument, a string array: the
    /// code point of its first character, 0 for the empty string, with the
    /// argument's validity. Further arguments are ignored. Fails unless the
    /// first argument is a string array.
    pub fn execute(&self, inputs: &[&Array]) -> (r: Result<Array>)
        requires
            forall|i: int| 0 <= i < inputs@.len() ==> (#[trigger] inputs@[i]).wf(),
        ensures
            r is Ok <==> (inputs@.len() >= 1 && inputs@[0] is Utf8),
            r matches Ok(out) ==> out.wf() && out.spec_datatype() == DataType::Int32 && {
                let s = inputs@[0]->Utf8_0;
                let p = out->Int32_0;
                &&& out.spec_len() == inputs@[0].spec_len()
                &&& out.spec_validity() == inputs@[0].spec_validity()
                &&& forall|i: int|
                    0 <= i < s.spec_len() ==> #[trigger] p.values@[i] == if varlen_row_valid(s, i) {
                        first_code_point(s.value_at(i))
                    } else {
                        0
                    }
            },
            r matches Err(e) ==> e.kind == ErrorKind::InvalidArgument,
    {
        if inputs.len() == 0 {
            return Err(
                RayexecError::with_kind(ErrorKind::InvalidArgument, "ascii expects an argument"),
            );
        }
        match inputs[0] {
            Array::Utf8(s) => {
                let fill: i32 = 0;
                let out = unary_varlen(
                    s,
                    fill,
                    first_code_point_of,
                    Ghost(|b: Seq<u8>| first_code_point(b) as i32),
                );
                Ok(Array::Int32(out))
            },
            _ => Err(
                RayexecError::with_kind(ErrorKind::InvalidArgument, "ascii expects a string argument"),
            ),
        }
    }
}

} // verus!

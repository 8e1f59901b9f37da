//! Small helpers: fixed-size names and condition checks.
use vstd::prelude::*;
use vstd::utf8::{decode_utf8, valid_utf8};
use crate::consts::NAME_LEN;
use crate::tree::{ProgramResult, TreeError};

verus! {

/// Returns `Ok` where `condition` holds, else `err`.
pub fn check_condition(condition: bool, err: TreeError) -> (r: ProgramResult)
    ensures
        condition ==> r is Ok,
        !condition ==> r == Err::<(), TreeError>(err),
{
    if condition {
        Ok(())
    } else {
        Err(err)
    }
}

/// `input` cut or padded with zeros to `N` bytes.
pub fn padded_array<const N: usize>(input: &[u8]) -> (r: [u8; N])
    ensures
        forall|i: int| 0 <= i < N ==> #[trigger] r@[i] == if i < input@.len() { input@[i] } else { 0u8 },
{
    let mut out: [u8; N] = vstd::array::array_fill_for_copy_types::<u8, N>(0u8);
    let len: usize = if input.len() < N { input.len() } else { N };
    let mut i: usize = 0;
    while i < len
        invariant
            i <= len,
            len <= N,
            len <= input@.len(),
            len == N || len == input@.len(),
            forall|j: int| 0 <= j < N ==> #[trigger] out@[j] == if j < i { input@[j] } else { 0u8 },
        decreases len - i,
    {
        out[i] = input[i];
        i = i + 1;
    }
    out
}

/// A name of at most `NAME_LEN` bytes, padded with zeros.
pub fn to_name(val: &[u8]) -> (r: [u8; NAME_LEN])
    requires
        val@.len() <= NAME_LEN,
    ensures
        forall|i: int| 0 <= i < NAME_LEN ==> #[trigger] r@[i] == if i < val@.len() { val@[i] } else { 0u8 },
{
    padded_array::<NAME_LEN>(val)
}

/// The bytes of a name before its first zero byte.
pub open spec fn name_bytes(val: Seq<u8>) -> Seq<u8> {
    val.take(name_end(val, 0))
}

/// The position of the first zero byte of `val` from `i` on, or its length.
pub open spec fn name_end(val: Seq<u8>, i: int) -> int
    decreases val.len() - i,
{
    if i < 0 || i >= val.len() {
        val.len() as int
    } else if val[i] == 0 {
        i
    } else {
        name_end(val, i + 1)
    }
}

/// Relies on `core::str::from_utf8`: the text that valid UTF-8 bytes encode,
/// and nothing for invalid ones.
#[verifier::external_body]
fn utf8_text(bytes: &[u8]) -> (r: Option<&str>)
    ensures
        r is Some <==> valid_utf8(bytes@),
        r is Some ==> r->Some_0@ == decode_utf8(bytes@),
{
    core::str::from_utf8(bytes).ok()
}

/// The text of a name: its bytes before the first zero, which are UTF-8.
pub fn from_name(val: &[u8; NAME_LEN]) -> (r: &str)
    requires
        valid_utf8(name_bytes(val@)),
    ensures
        r@ == decode_utf8(name_bytes(val@)),
{
    let mut end: usize = 0;
    while end < NAME_LEN && val[end] != 0
        invariant
            end <= NAME_LEN,
            name_end(val@, end as int) == name_end(val@, 0),
        decreases NAME_LEN - end,
    {
        end = end + 1;
    }
    let bytes = vstd::slice::slice_subrange(val.as_slice(), 0, end);
    match utf8_text(bytes) {
        Some(s) => s,
        None => "",
    }
}

} // verus!

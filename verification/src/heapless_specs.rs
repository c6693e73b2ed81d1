//! Trusted bindings for the two `heapless` collections the library uses:
//! the fixed-capacity vector that backs the encounter store and the
//! fixed-capacity strings that carry formatted text.
//!
//! Each collection's contents are named by an uninterpreted spec
//! function, and every method the library calls gets a small wrapper
//! whose contract states, over that name, what the `heapless` source
//! shows the method doing.

use vstd::prelude::*;

use crate::storage::EncounterLog;
use crate::storage::MAX_ENCOUNTERS;
use vstd::utf8::is_ascii_chars;

verus! {

/// Declares `heapless::Vec` so it can stand in signatures and fields;
/// its values stay opaque to the verifier.
#[verifier::external_type_specification]
#[verifier::external_body]
#[verifier::reject_recursive_types(T)]
pub struct ExHeaplessVec<T, const N: usize>(heapless::Vec<T, N>);

/// Declares `heapless::String` so it can stand in signatures and
/// fields; its values stay opaque to the verifier.
#[verifier::external_type_specification]
#[verifier::external_body]
pub struct ExHeaplessString<const N: usize>(heapless::String<N>);

/// The elements held by an encounter buffer, oldest first.
pub uninterp spec fn log_entries(v: heapless::Vec<EncounterLog, MAX_ENCOUNTERS>) -> Seq<
    EncounterLog,
>;

/// Relies on `heapless::Vec::new`: the new vector is empty.
#[verifier::external_body]
pub(crate) fn log_buf_new() -> (r: heapless::Vec<EncounterLog, MAX_ENCOUNTERS>)
    ensures
        log_entries(r) == Seq::<EncounterLog>::empty(),
{
    heapless::Vec::new()
}

/// Relies on `heapless::Vec::len`; the length never exceeds the
/// capacity `N`.
#[verifier::external_body]
pub(crate) fn log_buf_len(v: &heapless::Vec<EncounterLog, MAX_ENCOUNTERS>) -> (r: usize)
    ensures
        r == log_entries(*v).len(),
        r <= MAX_ENCOUNTERS,
{
    v.len()
}

/// Relies on indexing through `heapless::Vec`'s `Deref` to a slice of
/// the first `len` elements.
#[verifier::external_body]
pub(crate) fn log_buf_get(v: &heapless::Vec<EncounterLog, MAX_ENCOUNTERS>, i: usize) -> (r: EncounterLog)
    requires
        i < log_entries(*v).len(),
    ensures
        r == log_entries(*v)[i as int],
{
    v[i]
}

/// Relies on `heapless::Vec::push`: below capacity it appends the item
/// and returns `Ok`.
#[verifier::external_body]
pub(crate) fn log_buf_push(v: &mut heapless::Vec<EncounterLog, MAX_ENCOUNTERS>, e: EncounterLog)
    requires
        log_entries(*old(v)).len() < MAX_ENCOUNTERS,
    ensures
        log_entries(*final(v)) == log_entries(*old(v)).push(e),
        log_entries(*final(v)).len() <= MAX_ENCOUNTERS,
{
    let _ = v.push(e);
}

/// Relies on `heapless::Vec::remove`: removing index 0 shifts the rest
/// down by one.
#[verifier::external_body]
pub(crate) fn log_buf_remove_front(v: &mut heapless::Vec<EncounterLog, MAX_ENCOUNTERS>)
    requires
        log_entries(*old(v)).len() > 0,
    ensures
        log_entries(*final(v)) == log_entries(*old(v)).drop_first(),
{
    let _ = v.remove(0);
}

/// Relies on `heapless::Vec::clear`: it removes every element.
#[verifier::external_body]
pub(crate) fn log_buf_clear(v: &mut heapless::Vec<EncounterLog, MAX_ENCOUNTERS>)
    ensures
        log_entries(*final(v)) == Seq::<EncounterLog>::empty(),
{
    v.clear()
}

/// The characters held by a 64-byte formatting string.
pub uninterp spec fn str64_chars(s: heapless::String<64>) -> Seq<char>;

/// The characters held by a 2048-byte formatting string.
pub uninterp spec fn str2048_chars(s: heapless::String<2048>) -> Seq<char>;

/// Relies on `heapless::String::new`: the new string is empty.
#[verifier::external_body]
pub(crate) fn str64_new() -> (r: heapless::String<64>)
    ensures
        str64_chars(r) == Seq::<char>::empty(),
{
    heapless::String::new()
}

/// Relies on `heapless::String::push`: with ASCII contents and an
/// ASCII character, it appends the character while a byte of capacity
/// remains and otherwise leaves the string unchanged.
#[verifier::external_body]
pub(crate) fn str64_push(s: &mut heapless::String<64>, c: char) -> (r: bool)
    requires
        is_ascii_chars(str64_chars(*old(s))),
        '\0' <= c <= '\u{7f}',
    ensures
        str64_chars(*old(s)).len() < 64 ==> r && str64_chars(*final(s)) == str64_chars(
            *old(s),
        ).push(c),
        str64_chars(*old(s)).len() >= 64 ==> !r && *final(s) == *old(s),
{
    s.push(c).is_ok()
}

/// Relies on `heapless::String::as_str`: it exposes the stored text.
#[verifier::external_body]
pub(crate) fn str64_as_str(s: &heapless::String<64>) -> (r: &str)
    ensures
        r@ == str64_chars(*s),
{
    s.as_str()
}

/// Relies on `heapless::String::new`: the new string is empty.
#[verifier::external_body]
pub(crate) fn str2048_new() -> (r: heapless::String<2048>)
    ensures
        str2048_chars(r) == Seq::<char>::empty(),
{
    heapless::String::new()
}

/// Relies on `heapless::String::push`: with ASCII contents and an
/// ASCII character, it appends the character while a byte of capacity
/// remains and otherwise leaves the string unchanged.
#[verifier::external_body]
pub(crate) fn str2048_push(s: &mut heapless::String<2048>, c: char) -> (r: bool)
    requires
        is_ascii_chars(str2048_chars(*old(s))),
        '\0' <= c <= '\u{7f}',
    ensures
        str2048_chars(*old(s)).len() < 2048 ==> r && str2048_chars(*final(s)) == str2048_chars(
            *old(s),
        ).push(c),
        str2048_chars(*old(s)).len() >= 2048 ==> !r && *final(s) == *old(s),
{
    s.push(c).is_ok()
}

/// Relies on `heapless::String::push_str`: with ASCII contents on both
/// sides it appends the whole piece when it fits the remaining
/// capacity and otherwise leaves the string unchanged.
#[verifier::external_body]
pub(crate) fn str2048_push_str(s: &mut heapless::String<2048>, piece: &str) -> (r: bool)
    requires
        is_ascii_chars(str2048_chars(*old(s))),
        is_ascii_chars(piece@),
    ensures
        str2048_chars(*old(s)).len() + piece@.len() <= 2048 ==> r && str2048_chars(*final(s))
            == str2048_chars(*old(s)) + piece@,
        str2048_chars(*old(s)).len() + piece@.len() > 2048 ==> !r && *final(s) == *old(s),
{
    s.push_str(piece).is_ok()
}

} // verus!

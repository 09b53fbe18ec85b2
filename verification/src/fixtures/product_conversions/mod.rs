//! A product crate for the conversion, channel and boolean-parameter passes. With their gates
//! unset, all of it is silent.

pub mod crossbeam_channel;
pub mod tokio;

use vstd::prelude::*;
use vstd::utf8::{decode_utf8, valid_utf8};

verus! {

/// The error of `String::from_utf8`.
#[verifier::external_type_specification]
#[verifier::external_body]
pub struct ExFromUtf8Error(std::string::FromUtf8Error);

/// `std::string::String::from_utf8` succeeds exactly on valid UTF-8, and then gives the text
/// that the bytes encode.
pub assume_specification[ String::from_utf8 ](vec: Vec<u8>) -> (r: Result<
    String,
    std::string::FromUtf8Error,
>)
    ensures
        r is Ok <==> valid_utf8(vec@),
        r matches Ok(text) ==> text@ == decode_utf8(vec@),
;

/// `core::result::Result::unwrap_or` returns the `Ok` value, or `default` in its place.
pub assume_specification<T, E>[ Result::<T, E>::unwrap_or ](
    result: Result<T, E>,
    default: T,
) -> (t: T)
    ensures
        t == match result {
            Ok(value) => value,
            Err(_) => default,
        },
;

/// `core::result::Result::unwrap_or_default` returns the `Ok` value, or the default value of
/// its type in its place.
pub assume_specification<T: core::default::Default, E>[ Result::<T, E>::unwrap_or_default ](
    result: Result<T, E>,
) -> (t: T)
    ensures
        result matches Ok(value) ==> t == value,
        result is Err ==> T::default.ensures((), t),
;

/// `core::result::Result::unwrap_or_else` returns the `Ok` value, or what `op` makes of the
/// error in its place.
pub assume_specification<T, E, F: FnOnce(E) -> T>[ Result::<T, E>::unwrap_or_else ](
    result: Result<T, E>,
    op: F,
) -> (t: T)
    requires
        result matches Err(error) ==> op.requires((error,)),
    ensures
        result matches Ok(value) ==> t == value,
        result matches Err(error) ==> op.ensures((error,), t),
;

/// Reported by the silent-saturation pass: overflow becomes the largest number.
pub fn saturating_count(count: usize) -> (r: i32)
    ensures
        r == if count <= i32::MAX {
            count as int
        } else {
            i32::MAX as int
        },
{
    i32::try_from(count).unwrap_or(i32::MAX)
}

/// Reported by the silent-saturation pass: overflow becomes zero.
pub fn defaulting_count(count: u64) -> (r: u32)
    ensures
        r == if count <= u32::MAX {
            count as int
        } else {
            0
        },
{
    u32::try_from(count).unwrap_or_default()
}

/// What takes the place of a length that does not fit.
fn largest_len(_error: std::num::TryFromIntError) -> (r: u16)
    ensures
        r == u16::MAX,
{
    u16::MAX
}

/// Reported by the silent-saturation pass: overflow becomes the largest number.
pub fn truncating_len(len: usize) -> (r: u16)
    ensures
        r == if len <= u16::MAX {
            len as int
        } else {
            u16::MAX as int
        },
{
    let narrowed: u16 = len.try_into().unwrap_or_else(largest_len);
    narrowed
}

/// Not reported: the conversion is not into a number. Bytes that are no text become the empty
/// text.
pub fn lossy_string(bytes: Vec<u8>) -> (r: String)
    ensures
        r@ == if valid_utf8(bytes@) {
            decode_utf8(bytes@)
        } else {
            Seq::<char>::empty()
        },
{
    String::from_utf8(bytes).unwrap_or_default()
}

/// Not reported: a number that is out of range is handled.
pub fn checked_count(count: usize) -> (r: Option<i32>)
    ensures
        r == if count <= i32::MAX {
            Some(count as i32)
        } else {
            None
        },
{
    match i32::try_from(count) {
        Ok(value) => Some(value),
        Err(_) => None,
    }
}

/// Reported by the unbounded-channel pass, twice.
pub fn spawn_unbounded() {
    tokio::sync::mpsc::unbounded_channel();
    crossbeam_channel::unbounded();
}

/// Not reported: the channels have a bound.
pub fn spawn_bounded() {
    tokio::sync::mpsc::channel(64);
    crossbeam_channel::bounded(64);
}

/// Reported by the boolean-parameter pass.
pub fn render_report(_verbose: bool) {
}

/// A renderer.
pub struct Renderer;

impl Renderer {
    /// Reported by the boolean-parameter pass.
    pub fn render(&self, _compact: bool) {
    }

    /// Not reported: a setter.
    pub fn set_compact(&mut self, _compact: bool)
        ensures
            *final(self) == *old(self),
    {
    }

    /// Not reported: a setter.
    pub fn with_verbose(self, _verbose: bool) -> (r: Self)
        ensures
            r == self,
    {
        self
    }
}

/// Not reported: not public.
#[allow(dead_code)]
fn private_render(_verbose: bool) {
}

/// Not reported: no boolean parameter.
pub fn render_level(_level: u8) {
}

/// Not reported: suppressed.
#[allow(unknown_lints, rust_lints_policy_checks)]
pub fn suppressed_saturation(count: usize) -> (r: i32)
    ensures
        r == if count <= i32::MAX {
            count as int
        } else {
            i32::MAX as int
        },
{
    i32::try_from(count).unwrap_or(i32::MAX)
}

/// Not reported: suppressed.
#[allow(unknown_lints, rust_lints_policy_checks)]
pub fn suppressed_bool_param(_verbose: bool) {
}

} // verus!

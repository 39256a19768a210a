//! Type encodings: the descriptor strings the foreign runtime uses to
//! describe argument and return layouts.
//!
//! Every type that can cross the foreign call boundary has an [`Encoding`].
//! [`Encode`] gives the encoding of a value of the type itself, [`RefEncode`]
//! the encoding of a reference to it; references encode as the pointee's
//! reference encoding, so pointer chains nest as [`Encoding::Pointer`].  The
//! byte-like integers are special: a reference to them encodes as a C string
//! ([`Encoding::String`]).
//!
//! [`EncodeArguments`] lifts [`Encode`] to argument tuples, giving the list
//! of encodings of each argument in order.

use core::mem::ManuallyDrop;
use core::mem::MaybeUninit;
use core::num::Wrapping;
use vstd::prelude::*;

verus! {

/// A foreign type encoding.
#[derive(Debug, PartialEq, Eq)]
pub enum Encoding {
    /// A signed 8-bit integer (C `char`).
    Char,
    /// A signed 16-bit integer.
    Short,
    /// A signed 32-bit integer.
    Int,
    /// A signed 64-bit integer.
    LongLong,
    /// An unsigned 8-bit integer.
    UChar,
    /// An unsigned 16-bit integer.
    UShort,
    /// An unsigned 32-bit integer.
    UInt,
    /// An unsigned 64-bit integer.
    ULongLong,
    /// A single-precision floating-point number.
    Float,
    /// A double-precision floating-point number.
    Double,
    /// A boolean.
    Bool,
    /// No value.
    Void,
    /// A C string: a pointer to `char` bytes.
    String,
    /// A pointer to the contained encoding.
    Pointer(Box<Encoding>),
    /// An inline array: a length and the element encoding.
    Array(u64, Box<Encoding>),
    /// A foreign object pointer.
    Object,
    /// A foreign class pointer.
    Class,
    /// A foreign method selector.
    Sel,
    /// Something the encoding scheme cannot describe (a function pointer's
    /// pointee, for example).
    Unknown,
}

/// Types whose values have a foreign type encoding.
pub trait Encode {
    /// The encoding, as specifications see it.
    spec fn spec_encoding() -> Encoding;

    /// The encoding of this type.
    fn encoding() -> (e: Encoding)
        ensures
            e == Self::spec_encoding(),
    ;
}

/// Types a reference to which has a foreign type encoding.
///
/// For most types a reference encodes as a pointer to the type's own
/// encoding; for the byte-like integers it is the C-string encoding, and for
/// opaque foreign types it would be the object encoding.
pub trait RefEncode {
    /// The reference encoding, as specifications see it.
    spec fn spec_encoding_ref() -> Encoding;

    /// The encoding of a reference to this type.
    fn encoding_ref() -> (e: Encoding)
        ensures
            e == Self::spec_encoding_ref(),
    ;
}

impl Encode for i8 {
    open spec fn spec_encoding() -> Encoding {
        Encoding::Char
    }

    fn encoding() -> Encoding {
        Encoding::Char
    }
}

impl Encode for i16 {
    open spec fn spec_encoding() -> Encoding {
        Encoding::Short
    }

    fn encoding() -> Encoding {
        Encoding::Short
    }
}

impl Encode for i32 {
    open spec fn spec_encoding() -> Encoding {
        Encoding::Int
    }

    fn encoding() -> Encoding {
        Encoding::Int
    }
}

impl Encode for i64 {
    open spec fn spec_encoding() -> Encoding {
        Encoding::LongLong
    }

    fn encoding() -> Encoding {
        Encoding::LongLong
    }
}

impl Encode for u8 {
    open spec fn spec_encoding() -> Encoding {
        Encoding::UChar
    }

    fn encoding() -> Encoding {
        Encoding::UChar
    }
}

impl Encode for u16 {
    open spec fn spec_encoding() -> Encoding {
        Encoding::UShort
    }

    fn encoding() -> Encoding {
        Encoding::UShort
    }
}

impl Encode for u32 {
    open spec fn spec_encoding() -> Encoding {
        Encoding::UInt
    }

    fn encoding() -> Encoding {
        Encoding::UInt
    }
}

impl Encode for u64 {
    open spec fn spec_encoding() -> Encoding {
        Encoding::ULongLong
    }

    fn encoding() -> Encoding {
        Encoding::ULongLong
    }
}

/// The encoding of `isize` matches the 64-bit pointer width this crate
/// targets.
impl Encode for isize {
    open spec fn spec_encoding() -> Encoding {
        Encoding::LongLong
    }

    fn encoding() -> Encoding {
        Encoding::LongLong
    }
}

/// The encoding of `usize` matches the 64-bit pointer width this crate
/// targets.
impl Encode for usize {
    open spec fn spec_encoding() -> Encoding {
        Encoding::ULongLong
    }

    fn encoding() -> Encoding {
        Encoding::ULongLong
    }
}

impl Encode for bool {
    open spec fn spec_encoding() -> Encoding {
        Encoding::Bool
    }

    fn encoding() -> Encoding {
        Encoding::Bool
    }
}

/// Only so that `()` can be the return type of generic foreign calls; `()`
/// itself never crosses the boundary.
impl Encode for () {
    open spec fn spec_encoding() -> Encoding {
        Encoding::Void
    }

    fn encoding() -> Encoding {
        Encoding::Void
    }
}

/// Pointers to the byte-like `i8` use the special C-string encoding.
impl RefEncode for i8 {
    open spec fn spec_encoding_ref() -> Encoding {
        Encoding::String
    }

    fn encoding_ref() -> Encoding {
        Encoding::String
    }
}

/// Pointers to the byte-like `u8` use the special C-string encoding.
impl RefEncode for u8 {
    open spec fn spec_encoding_ref() -> Encoding {
        Encoding::String
    }

    fn encoding_ref() -> Encoding {
        Encoding::String
    }
}

impl RefEncode for i16 {
    open spec fn spec_encoding_ref() -> Encoding {
        Encoding::Pointer(Box::new(Encoding::Short))
    }

    fn encoding_ref() -> Encoding {
        Encoding::Pointer(Box::new(Encoding::Short))
    }
}

impl RefEncode for i32 {
    open spec fn spec_encoding_ref() -> Encoding {
        Encoding::Pointer(Box::new(Encoding::Int))
    }

    fn encoding_ref() -> Encoding {
        Encoding::Pointer(Box::new(Encoding::Int))
    }
}

impl RefEncode for i64 {
    open spec fn spec_encoding_ref() -> Encoding {
        Encoding::Pointer(Box::new(Encoding::LongLong))
    }

    fn encoding_ref() -> Encoding {
        Encoding::Pointer(Box::new(Encoding::LongLong))
    }
}

impl RefEncode for u16 {
    open spec fn spec_encoding_ref() -> Encoding {
        Encoding::Pointer(Box::new(Encoding::UShort))
    }

    fn encoding_ref() -> Encoding {
        Encoding::Pointer(Box::new(Encoding::UShort))
    }
}

impl RefEncode for u32 {
    open spec fn spec_encoding_ref() -> Encoding {
        Encoding::Pointer(Box::new(Encoding::UInt))
    }

    fn encoding_ref() -> Encoding {
        Encoding::Pointer(Box::new(Encoding::UInt))
    }
}

impl RefEncode for u64 {
    open spec fn spec_encoding_ref() -> Encoding {
        Encoding::Pointer(Box::new(Encoding::ULongLong))
    }

    fn encoding_ref() -> Encoding {
        Encoding::Pointer(Box::new(Encoding::ULongLong))
    }
}

impl RefEncode for isize {
    open spec fn spec_encoding_ref() -> Encoding {
        Encoding::Pointer(Box::new(Encoding::LongLong))
    }

    fn encoding_ref() -> Encoding {
        Encoding::Pointer(Box::new(Encoding::LongLong))
    }
}

impl RefEncode for usize {
    open spec fn spec_encoding_ref() -> Encoding {
        Encoding::Pointer(Box::new(Encoding::ULongLong))
    }

    fn encoding_ref() -> Encoding {
        Encoding::Pointer(Box::new(Encoding::ULongLong))
    }
}

impl RefEncode for bool {
    open spec fn spec_encoding_ref() -> Encoding {
        Encoding::Pointer(Box::new(Encoding::Bool))
    }

    fn encoding_ref() -> Encoding {
        Encoding::Pointer(Box::new(Encoding::Bool))
    }
}

/// A reference encodes as the pointee's reference encoding.
impl<'a, T: RefEncode> Encode for &'a T {
    open spec fn spec_encoding() -> Encoding {
        T::spec_encoding_ref()
    }

    fn encoding() -> Encoding {
        T::encoding_ref()
    }
}

/// A reference to a reference encodes as a pointer to the inner reference
/// encoding; chains of references nest accordingly.
impl<'a, T: RefEncode> RefEncode for &'a T {
    open spec fn spec_encoding_ref() -> Encoding {
        Encoding::Pointer(Box::new(T::spec_encoding_ref()))
    }

    fn encoding_ref() -> Encoding {
        Encoding::Pointer(Box::new(T::encoding_ref()))
    }
}

/// A mutable reference encodes exactly like a shared one: the foreign side
/// sees the same pointer either way.
impl<'a, T: RefEncode> Encode for &'a mut T {
    open spec fn spec_encoding() -> Encoding {
        T::spec_encoding_ref()
    }

    fn encoding() -> Encoding {
        T::encoding_ref()
    }
}

impl<'a, T: RefEncode> RefEncode for &'a mut T {
    open spec fn spec_encoding_ref() -> Encoding {
        Encoding::Pointer(Box::new(T::spec_encoding_ref()))
    }

    fn encoding_ref() -> Encoding {
        Encoding::Pointer(Box::new(T::encoding_ref()))
    }
}

/// An inline array encodes as its length and element encoding.
impl<T: Encode, const N: usize> Encode for [T; N] {
    open spec fn spec_encoding() -> Encoding {
        Encoding::Array(N as u64, Box::new(T::spec_encoding()))
    }

    fn encoding() -> Encoding {
        Encoding::Array(N as u64, Box::new(T::encoding()))
    }
}

/// An optional reference has the same layout as the reference (absence is the
/// null pointer), so it encodes identically.
impl<'a, T: RefEncode> Encode for Option<&'a T> {
    open spec fn spec_encoding() -> Encoding {
        T::spec_encoding_ref()
    }

    fn encoding() -> Encoding {
        T::encoding_ref()
    }
}

impl<'a, T: RefEncode> RefEncode for Option<&'a T> {
    open spec fn spec_encoding_ref() -> Encoding {
        Encoding::Pointer(Box::new(T::spec_encoding_ref()))
    }

    fn encoding_ref() -> Encoding {
        Encoding::Pointer(Box::new(T::encoding_ref()))
    }
}

/// `ManuallyDrop<T>` has the same layout as `T`, so it encodes identically.
impl<T: Encode> Encode for ManuallyDrop<T> {
    open spec fn spec_encoding() -> Encoding {
        T::spec_encoding()
    }

    fn encoding() -> Encoding {
        T::encoding()
    }
}

impl<T: RefEncode> RefEncode for ManuallyDrop<T> {
    open spec fn spec_encoding_ref() -> Encoding {
        T::spec_encoding_ref()
    }

    fn encoding_ref() -> Encoding {
        T::encoding_ref()
    }
}

/// `MaybeUninit<T>` has the same size, alignment and ABI as `T`, so it
/// encodes identically.
impl<T: Encode> Encode for MaybeUninit<T> {
    open spec fn spec_encoding() -> Encoding {
        T::spec_encoding()
    }

    fn encoding() -> Encoding {
        T::encoding()
    }
}

impl<T: RefEncode> RefEncode for MaybeUninit<T> {
    open spec fn spec_encoding_ref() -> Encoding {
        T::spec_encoding_ref()
    }

    fn encoding_ref() -> Encoding {
        T::encoding_ref()
    }
}

/// Declares `core::num::Wrapping` to the verifier, which has no
/// specification for it; the type stays opaque and is only ever named in
/// encoding signatures.
#[verifier::external_type_specification]
#[verifier::external_body]
#[verifier::reject_recursive_types(T)]
pub struct ExWrapping<T>(Wrapping<T>);

/// `Wrapping<T>` has the same layout and ABI as `T`, so it encodes
/// identically.
impl<T: Encode> Encode for Wrapping<T> {
    open spec fn spec_encoding() -> Encoding {
        T::spec_encoding()
    }

    fn encoding() -> Encoding {
        T::encoding()
    }
}

impl<T: RefEncode> RefEncode for Wrapping<T> {
    open spec fn spec_encoding_ref() -> Encoding {
        T::spec_encoding_ref()
    }

    fn encoding_ref() -> Encoding {
        T::encoding_ref()
    }
}

/// Marks the argument tuples [`EncodeArguments`] is implemented for; no other
/// implementations are intended.
pub trait Sealed {

}

/// Ordered groups of function arguments, each with a foreign type encoding.
pub trait EncodeArguments: Sealed {
    /// The encodings of the arguments in order, as specifications see them.
    spec fn spec_encodings() -> Seq<Encoding>;

    /// The encodings of the arguments in order.
    fn encodings() -> (es: Vec<Encoding>)
        ensures
            es@ == Self::spec_encodings(),
    ;
}

impl Sealed for () {

}

impl EncodeArguments for () {
    open spec fn spec_encodings() -> Seq<Encoding> {
        Seq::empty()
    }

    fn encodings() -> (es: Vec<Encoding>) {
        let es: Vec<Encoding> = Vec::new();
        proof {
            assert(es@ =~= Seq::<Encoding>::empty());
        }
        es
    }
}

impl<A: Encode> Sealed for (A,) {

}

impl<A: Encode> EncodeArguments for (A,) {
    open spec fn spec_encodings() -> Seq<Encoding> {
        seq![A::spec_encoding()]
    }

    fn encodings() -> (es: Vec<Encoding>) {
        let mut es: Vec<Encoding> = Vec::new();
        es.push(A::encoding());
        proof {
            assert(es@ =~= seq![A::spec_encoding()]);
        }
        es
    }
}

impl<A: Encode, B: Encode> Sealed for (A, B) {

}

impl<A: Encode, B: Encode> EncodeArguments for (A, B) {
    open spec fn spec_encodings() -> Seq<Encoding> {
        seq![A::spec_encoding(), B::spec_encoding()]
    }

    fn encodings() -> (es: Vec<Encoding>) {
        let mut es: Vec<Encoding> = Vec::new();
        es.push(A::encoding());
        es.push(B::encoding());
        proof {
            assert(es@ =~= seq![A::spec_encoding(), B::spec_encoding()]);
        }
        es
    }
}

impl<A: Encode, B: Encode, C: Encode> Sealed for (A, B, C) {

}

impl<A: Encode, B: Encode, C: Encode> EncodeArguments for (A, B, C) {
    open spec fn spec_encodings() -> Seq<Encoding> {
        seq![A::spec_encoding(), B::spec_encoding(), C::spec_encoding()]
    }

    fn encodings() -> (es: Vec<Encoding>) {
        let mut es: Vec<Encoding> = Vec::new();
        es.push(A::encoding());
        es.push(B::encoding());
        es.push(C::encoding());
        proof {
            assert(es@ =~= seq![A::spec_encoding(), B::spec_encoding(), C::spec_encoding()]);
        }
        es
    }
}

impl<A: Encode, B: Encode, C: Encode, D: Encode> Sealed for (A, B, C, D) {

}

impl<A: Encode, B: Encode, C: Encode, D: Encode> EncodeArguments for (A, B, C, D) {
    open spec fn spec_encodings() -> Seq<Encoding> {
        seq![
            A::spec_encoding(),
            B::spec_encoding(),
            C::spec_encoding(),
            D::spec_encoding(),
        ]
    }

    fn encodings() -> (es: Vec<Encoding>) {
        let mut es: Vec<Encoding> = Vec::new();
        es.push(A::encoding());
        es.push(B::encoding());
        es.push(C::encoding());
        es.push(D::encoding());
        proof {
            assert(es@ =~= seq![
                A::spec_encoding(),
                B::spec_encoding(),
                C::spec_encoding(),
                D::spec_encoding(),
            ]);
        }
        es
    }
}

} // verus!

use core::mem::ManuallyDrop;
use core::mem::MaybeUninit;
use core::num::Wrapping;
use objc2::encode::Encode;
use objc2::encode::EncodeArguments;
use objc2::encode::Encoding;
use objc2::encode::RefEncode;

#[test]
fn test_c_string() {
    assert_eq!(<i8 as Encode>::encoding(), Encoding::Char);
    assert_eq!(<u8 as Encode>::encoding(), Encoding::UChar);

    assert_eq!(<&i8 as Encode>::encoding(), Encoding::String);
    assert_eq!(<&u8 as Encode>::encoding(), Encoding::String);
    assert_eq!(<i8 as RefEncode>::encoding_ref(), Encoding::String);
    assert_eq!(<i8 as RefEncode>::encoding_ref(), Encoding::String);

    assert_eq!(
        <&&i8 as Encode>::encoding(),
        Encoding::Pointer(Box::new(Encoding::String))
    );
    assert_eq!(
        <&&u8 as Encode>::encoding(),
        Encoding::Pointer(Box::new(Encoding::String))
    );
}

#[test]
fn test_i32() {
    assert_eq!(<i32 as Encode>::encoding(), Encoding::Int);
    assert_eq!(
        <&i32 as Encode>::encoding(),
        Encoding::Pointer(Box::new(Encoding::Int))
    );
    assert_eq!(
        <&&i32 as Encode>::encoding(),
        Encoding::Pointer(Box::new(Encoding::Pointer(Box::new(Encoding::Int))))
    );
}

#[test]
fn test_transparent() {
    assert_eq!(
        <ManuallyDrop<u8> as Encode>::encoding(),
        <u8 as Encode>::encoding()
    );
    assert_eq!(
        <ManuallyDrop<&u8> as Encode>::encoding(),
        <u8 as RefEncode>::encoding_ref()
    );
    assert_eq!(
        <ManuallyDrop<Option<&u8>> as Encode>::encoding(),
        <u8 as RefEncode>::encoding_ref()
    );
    assert_eq!(
        <&ManuallyDrop<Option<&u8>> as Encode>::encoding(),
        <&&u8 as Encode>::encoding()
    );
    assert_eq!(
        <MaybeUninit<u8> as Encode>::encoding(),
        <u8 as Encode>::encoding()
    );
    assert_eq!(
        <Wrapping<u8> as Encode>::encoding(),
        <u8 as Encode>::encoding()
    );
}

#[test]
fn test_encode_arguments() {
    assert!(<() as EncodeArguments>::encodings().is_empty());
    assert_eq!(
        <(i8,) as EncodeArguments>::encodings(),
        vec![<i8 as Encode>::encoding()]
    );
    assert_eq!(
        <(i8, u32) as EncodeArguments>::encodings(),
        vec![<i8 as Encode>::encoding(), <u32 as Encode>::encoding()]
    );
}

#[test]
fn test_unsigned_integers() {
    assert_eq!(<u16 as Encode>::encoding(), Encoding::UShort);
    assert_eq!(<u32 as Encode>::encoding(), Encoding::UInt);
    assert_eq!(<u64 as Encode>::encoding(), Encoding::ULongLong);
    assert_eq!(
        <&u64 as Encode>::encoding(),
        Encoding::Pointer(Box::new(Encoding::ULongLong))
    );
}

#[test]
fn test_bool_and_unit() {
    assert_eq!(<bool as Encode>::encoding(), Encoding::Bool);
    assert_eq!(<() as Encode>::encoding(), Encoding::Void);
    assert_eq!(
        <&bool as Encode>::encoding(),
        Encoding::Pointer(Box::new(Encoding::Bool))
    );
}

#[test]
fn test_encode_arguments_longer() {
    assert_eq!(
        <(i8, u32, bool) as EncodeArguments>::encodings(),
        vec![
            Encoding::Char,
            Encoding::UInt,
            Encoding::Bool,
        ]
    );
    assert_eq!(
        <(i8, u32, bool, i64) as EncodeArguments>::encodings(),
        vec![
            Encoding::Char,
            Encoding::UInt,
            Encoding::Bool,
            Encoding::LongLong,
        ]
    );
}

#[test]
fn test_mut_references() {
    assert_eq!(
        <&mut i32 as Encode>::encoding(),
        Encoding::Pointer(Box::new(Encoding::Int))
    );
    assert_eq!(<&mut u8 as Encode>::encoding(), Encoding::String);
    assert_eq!(
        <&&mut i32 as Encode>::encoding(),
        Encoding::Pointer(Box::new(Encoding::Pointer(Box::new(Encoding::Int))))
    );
}

#[test]
fn test_arrays() {
    assert_eq!(
        <[i32; 8] as Encode>::encoding(),
        Encoding::Array(8, Box::new(Encoding::Int))
    );
    assert_eq!(
        <[&u8; 2] as Encode>::encoding(),
        Encoding::Array(2, Box::new(Encoding::String))
    );
}

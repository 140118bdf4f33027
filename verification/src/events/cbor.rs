use vstd::prelude::*;

verus! {

/// A CBOR data item, as the decoder hands it over.
///
/// Integers carry their full CBOR range; a float is carried as the bits of the `f64`.
#[derive(Debug)]
pub enum CborValue {
    Integer(i128),
    Bytes(Vec<u8>),
    Float(u64),
    Text(String),
    Bool(bool),
    Null,
    Tag(u64, Box<CborValue>),
    Array(Vec<CborValue>),
    Dict(Vec<(CborValue, CborValue)>),
}

/// A script value made from an event payload.
#[derive(Debug)]
pub enum LuaValue {
    Nil,
    Boolean(bool),
    Integer(i64),
    /// A number, as the bits of the `f64`.
    Number(u64),
    /// A string made from bytes.
    Bytes(Vec<u8>),
    /// A string made from text.
    Text(String),
    /// A table used as an array.
    Array(Vec<LuaValue>),
    /// A table made from a map, marked with the keys whose value was null.
    Table { entries: Vec<(String, LuaValue)>, cleanup: Vec<String> },
    /// An image payload, left to be decoded by the image loader.
    Image(Box<CborValue>),
}

/// Why a payload could not be turned into a script value.
#[derive(Debug, Clone, Copy, PartialEq, Eq, Structural)]
pub enum ConvertError {
    /// An integer outside the range of `i64`.
    IntegerOutOfRange,
    /// A tag other than the image tag.
    UnexpectedTag(u64),
    /// A map key that is not text.
    NonTextKey,
    /// A payload under the image tag that does not decode as an image.
    BadImage,
}

/// Whether the image decoder `f` accepts the payload `p`.
pub open spec fn decodes_as_image<F: Fn(&CborValue) -> bool>(f: F, p: CborValue) -> bool {
    call_ensures(f, (&p,), true)
}

/// An image decoder answers each payload in one way only, and accepts any payload to
/// look at.
pub open spec fn decoder_ok<F: Fn(&CborValue) -> bool>(f: F) -> bool {
    &&& forall|p: CborValue| #[trigger] call_requires(f, (&p,))
    &&& forall|p: CborValue, a: bool| #[trigger] call_ensures(f, (&p,), a) ==> (a <==> decodes_as_image(f, p))
}

/// The first error met when converting `v`, walking items in order.
pub open spec fn first_error<F: Fn(&CborValue) -> bool>(v: CborValue, image_tag: u64, f: F) -> Option<ConvertError>
    decreases v,
{
    match v {
        CborValue::Integer(i) => if i64::MIN <= i <= i64::MAX {
            None
        } else {
            Some(ConvertError::IntegerOutOfRange)
        },
        CborValue::Tag(t, inner) => if t == image_tag {
            if decodes_as_image(f, *inner) {
                None
            } else {
                Some(ConvertError::BadImage)
            }
        } else {
            Some(ConvertError::UnexpectedTag(t))
        },
        CborValue::Array(vs) => first_error_seq(vs@, image_tag, f),
        CborValue::Dict(items) => first_error_items(items@, image_tag, f),
        _ => None,
    }
}

pub open spec fn first_error_seq<F: Fn(&CborValue) -> bool>(vs: Seq<CborValue>, image_tag: u64, f: F) -> Option<ConvertError>
    decreases vs,
{
    if vs.len() == 0 {
        None
    } else {
        match first_error(vs[0], image_tag, f) {
            Some(e) => Some(e),
            None => first_error_seq(vs.drop_first(), image_tag, f),
        }
    }
}

pub open spec fn first_error_items<F: Fn(&CborValue) -> bool>(items: Seq<(CborValue, CborValue)>, image_tag: u64, f: F) -> Option<
    ConvertError,
>
    decreases items,
{
    if items.len() == 0 {
        None
    } else {
        match items[0].0 {
            CborValue::Text(_) => match first_error(items[0].1, image_tag, f) {
                Some(e) => Some(e),
                None => first_error_items(items.drop_first(), image_tag, f),
            },
            _ => Some(ConvertError::NonTextKey),
        }
    }
}

/// `l` is what converting `v` gives: integers within `i64`, bytes, floats, text,
/// booleans and null carry over; the image tag keeps its payload for the image loader;
/// arrays convert item by item; maps become tables whose entries with a null value are
/// listed as cleanup keys instead.
pub open spec fn converts<F: Fn(&CborValue) -> bool>(v: CborValue, l: LuaValue, image_tag: u64, f: F) -> bool
    decreases v,
{
    match v {
        CborValue::Integer(i) => i64::MIN <= i <= i64::MAX && l == LuaValue::Integer(i as i64),
        CborValue::Bytes(b) => l matches LuaValue::Bytes(b2) && b2@ == b@,
        CborValue::Float(f) => l == LuaValue::Number(f),
        CborValue::Text(s) => l matches LuaValue::Text(s2) && s2@ == s@,
        CborValue::Bool(b) => l == LuaValue::Boolean(b),
        CborValue::Null => l == LuaValue::Nil,
        CborValue::Tag(t, inner) => t == image_tag && decodes_as_image(f, *inner) && l == LuaValue::Image(
            inner,
        ),
        CborValue::Array(vs) => match l {
            LuaValue::Array(ls) => converts_seq(vs@, ls@, image_tag, f),
            _ => false,
        },
        CborValue::Dict(items) => match l {
            LuaValue::Table { entries, cleanup } => table_converts(
                items@,
                entries@,
                cleanup@,
                image_tag,
                f,
            ),
            _ => false,
        },
    }
}

/// Item by item, `ls` is what converting `vs` gives.
pub open spec fn converts_seq<F: Fn(&CborValue) -> bool>(vs: Seq<CborValue>, ls: Seq<LuaValue>, image_tag: u64, f: F) -> bool
    decreases vs,
{
    if vs.len() == 0 {
        ls.len() == 0
    } else {
        ls.len() > 0 && converts(vs.last(), ls.last(), image_tag, f) && converts_seq(
            vs.drop_last(),
            ls.drop_last(),
            image_tag,
            f,
        )
    }
}

/// Converting the map items `items` in order gives the table entries `entries` and the
/// cleanup keys `cleanup`: every key is text, and an item with a null value adds its key
/// to the cleanup keys while any other item adds an entry.
pub open spec fn table_converts<F: Fn(&CborValue) -> bool>(
    items: Seq<(CborValue, CborValue)>,
    entries: Seq<(String, LuaValue)>,
    cleanup: Seq<String>,
    image_tag: u64,
    f: F,
) -> bool
    decreases items,
{
    if items.len() == 0 {
        entries.len() == 0 && cleanup.len() == 0
    } else {
        match items.last().0 {
            CborValue::Text(key) => if items.last().1 is Null {
                cleanup.len() > 0 && cleanup.last()@ == key@ && table_converts(
                    items.drop_last(),
                    entries,
                    cleanup.drop_last(),
                    image_tag,
                    f,
                )
            } else {
                entries.len() > 0 && entries.last().0@ == key@ && converts(
                    items.last().1,
                    entries.last().1,
                    image_tag,
                    f,
                ) && table_converts(items.drop_last(), entries.drop_last(), cleanup, image_tag, f)
            },
            _ => false,
        }
    }
}

/// Turns an event payload into a script value: fails with the first error met, and
/// otherwise gives the value `converts` describes. A payload under the image tag must
/// be accepted by `image_decodes`, the decoder of the image type.
pub fn cbor_to_lua_value<F: Fn(&CborValue) -> bool>(
    value: CborValue,
    image_tag: u64,
    image_decodes: &F,
) -> (r: Result<LuaValue, ConvertError>)
    requires
        decoder_ok(*image_decodes),
    ensures
        match r {
            Ok(l) => first_error(value, image_tag, *image_decodes) is None && converts(
                value,
                l,
                image_tag,
                *image_decodes,
            ),
            Err(e) => first_error(value, image_tag, *image_decodes) == Some(e),
        },
    decreases value,
{
    let ghost v0 = value;
    match value {
        CborValue::Integer(integer) => {
            if integer < -9223372036854775808i128 || integer > 9223372036854775807i128 {
                Err(ConvertError::IntegerOutOfRange)
            } else {
                Ok(LuaValue::Integer(integer as i64))
            }
        },
        CborValue::Bytes(bytes) => Ok(LuaValue::Bytes(bytes)),
        CborValue::Float(float) => Ok(LuaValue::Number(float)),
        CborValue::Text(string) => Ok(LuaValue::Text(string)),
        CborValue::Bool(b) => Ok(LuaValue::Boolean(b)),
        CborValue::Null => Ok(LuaValue::Nil),
        CborValue::Tag(tag, inner) => {
            if tag == image_tag {
                let decodes = image_decodes(&*inner);
                if decodes {
                    Ok(LuaValue::Image(inner))
                } else {
                    Err(ConvertError::BadImage)
                }
            } else {
                Err(ConvertError::UnexpectedTag(tag))
            }
        },
        CborValue::Array(values) => {
            let ghost vs = values@;
            let ghost orig = values;
            let mut values = values;
            let mut out: Vec<LuaValue> = Vec::new();
            let mut i: usize = 0;
            assert(vs.take(0) =~= Seq::<CborValue>::empty());
            assert(vs.skip(0) =~= vs);
            while i < values.len()
                invariant
                    decoder_ok(*image_decodes),
                    values@.len() == vs.len(),
                    v0 == value,
                    v0 == CborValue::Array(orig),
                    orig@ == vs,
                    i <= vs.len(),
                    forall|j: int| i <= j < vs.len() ==> values@[j] == vs[j],
                    converts_seq(vs.take(i as int), out@, image_tag, *image_decodes),
                    first_error_seq(vs, image_tag, *image_decodes) == first_error_seq(vs.skip(i as int), image_tag, *image_decodes),
                decreases vs.len() - i,
            {
                let mut item = CborValue::Null;
                std::mem::swap(&mut item, &mut values[i]);
                assert(item == vs[i as int]);
                assert(vs.skip(i as int)[0] == vs[i as int]);
                assert(vs.skip(i as int).drop_first() =~= vs.skip(i + 1));
                assert(decreases_to!(v0 => v0->Array_0));
                assert(decreases_to!(orig => orig@));
                assert(decreases_to!(orig@ => orig@[i as int]));
                assert(decreases_to!(v0 => item));
                match cbor_to_lua_value(item, image_tag, image_decodes) {
                    Ok(l) => {
                        let ghost before = out@;
                        out.push(l);
                        assert(vs.take(i + 1).drop_last() =~= vs.take(i as int));
                        assert(out@.drop_last() =~= before);
                    },
                    Err(e) => {
                        return Err(e);
                    },
                }
                i = i + 1;
            }
            assert(vs.take(vs.len() as int) =~= vs);
            assert(vs.skip(vs.len() as int) =~= Seq::<CborValue>::empty());
            Ok(LuaValue::Array(out))
        },
        CborValue::Dict(items) => {
            let ghost its = items@;
            let ghost orig = items;
            let mut items = items;
            let mut entries: Vec<(String, LuaValue)> = Vec::new();
            let mut cleanup: Vec<String> = Vec::new();
            let mut i: usize = 0;
            assert(its.take(0) =~= Seq::<(CborValue, CborValue)>::empty());
            assert(its.skip(0) =~= its);
            while i < items.len()
                invariant
                    decoder_ok(*image_decodes),
                    items@.len() == its.len(),
                    v0 == value,
                    v0 == CborValue::Dict(orig),
                    orig@ == its,
                    i <= its.len(),
                    forall|j: int| i <= j < its.len() ==> items@[j] == its[j],
                    table_converts(its.take(i as int), entries@, cleanup@, image_tag, *image_decodes),
                    first_error_items(its, image_tag, *image_decodes) == first_error_items(its.skip(i as int), image_tag, *image_decodes),
                decreases its.len() - i,
            {
                let mut item = (CborValue::Null, CborValue::Null);
                std::mem::swap(&mut item, &mut items[i]);
                assert(item == its[i as int]);
                assert(its.skip(i as int)[0] == its[i as int]);
                assert(its.skip(i as int).drop_first() =~= its.skip(i + 1));
                assert(its.take(i + 1).drop_last() =~= its.take(i as int));
                assert(its.take(i + 1).last() == its[i as int]);
                let (key, val) = item;
                let key = match key {
                    CborValue::Text(k) => k,
                    _ => {
                        return Err(ConvertError::NonTextKey);
                    },
                };
                assert(decreases_to!(v0 => v0->Dict_0));
                assert(decreases_to!(orig => orig@));
                assert(decreases_to!(orig@ => orig@[i as int]));
                assert(decreases_to!(orig@[i as int] => orig@[i as int].1));
                assert(decreases_to!(v0 => val));
                let is_null = match val {
                    CborValue::Null => true,
                    _ => false,
                };
                match cbor_to_lua_value(val, image_tag, image_decodes) {
                    Ok(l) => {
                        if is_null {
                            let ghost before = cleanup@;
                            cleanup.push(key);
                            assert(cleanup@.drop_last() =~= before);
                        } else {
                            let ghost before = entries@;
                            entries.push((key, l));
                            assert(entries@.drop_last() =~= before);
                        }
                    },
                    Err(e) => {
                        return Err(e);
                    },
                }
                i = i + 1;
            }
            assert(its.take(its.len() as int) =~= its);
            assert(its.skip(its.len() as int) =~= Seq::<(CborValue, CborValue)>::empty());
            Ok(LuaValue::Table { entries, cleanup })
        },
    }
}

} // verus!

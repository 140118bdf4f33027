use vstd::prelude::*;

use crate::script_handler::script_data_types::MemoryLayout;

verus! {

/// Appends `bytes` to `v`.
pub fn extend_bytes(v: &mut Vec<u8>, bytes: &[u8])
    ensures
        final(v)@ == old(v)@ + bytes@,
{
    v.extend_from_slice(bytes);
    assert(v@ =~= old(v)@ + bytes@);
}

/// Bytes to put around each frame sent to a device.
#[derive(Debug, Clone)]
pub struct ExtraBytes {
    pub prepend: Vec<u8>,
    pub append: Vec<u8>,
}

/// The frame `bytes` framed by `extra`: its prepend bytes, the frame, its append bytes.
pub fn transform_data(extra: &ExtraBytes, bytes: &[u8]) -> (r: Vec<u8>)
    ensures
        r@ == extra.prepend@ + bytes@ + extra.append@,
{
    let mut r: Vec<u8> = Vec::new();
    extend_bytes(&mut r, extra.prepend.as_slice());
    extend_bytes(&mut r, bytes);
    extend_bytes(&mut r, extra.append.as_slice());
    assert(r@ =~= extra.prepend@ + bytes@ + extra.append@);
    r
}

/// The report of a SteelSeries screen with one bit per pixel: `0x61`, the frame, `0x00`.
pub fn steelseries_transform(bytes: &[u8]) -> (r: Vec<u8>)
    ensures
        r@ == seq![0x61u8] + bytes@ + seq![0x00u8],
{
    let mut r: Vec<u8> = Vec::new();
    r.push(0x61);
    extend_bytes(&mut r, bytes);
    r.push(0x00);
    assert(r@ =~= seq![0x61u8] + bytes@ + seq![0x00u8]);
    r
}

/// The report of a SteelSeries screen with vertical bit columns: `0x0a`, then the frame.
pub fn steelseries2_transform(bytes: &[u8]) -> (r: Vec<u8>)
    ensures
        r@ == seq![0x0au8] + bytes@,
{
    let mut r: Vec<u8> = Vec::new();
    r.push(0x0a);
    extend_bytes(&mut r, bytes);
    assert(r@ =~= seq![0x0au8] + bytes@);
    r
}

/// Which SteelSeries framing a memory layout calls for.
#[derive(Debug, Clone, Copy, PartialEq, Eq, Structural)]
pub enum SteelSeriesTransform {
    BitPerPixel,
    BitPerPixelVertical,
}

/// The SteelSeries framing for `layout`; a byte-per-pixel layout has none.
pub fn select_steelseries_transform(layout: MemoryLayout) -> (r: Result<
    SteelSeriesTransform,
    &'static str,
>)
    ensures
        match layout {
            MemoryLayout::BitPerPixel => r == Ok::<SteelSeriesTransform, &'static str>(
                SteelSeriesTransform::BitPerPixel,
            ),
            MemoryLayout::BitPerPixelVertical => r == Ok::<SteelSeriesTransform, &'static str>(
                SteelSeriesTransform::BitPerPixelVertical,
            ),
            MemoryLayout::BytePerPixel => r matches Err(m) && m@
                == "Not supported for SteelSeries devices"@,
        },
{
    match layout {
        MemoryLayout::BitPerPixel => Ok(SteelSeriesTransform::BitPerPixel),
        MemoryLayout::BitPerPixelVertical => Ok(SteelSeriesTransform::BitPerPixelVertical),
        MemoryLayout::BytePerPixel => Err("Not supported for SteelSeries devices"),
    }
}

/// Applies a SteelSeries framing to a frame.
pub fn apply_steelseries_transform(transform: SteelSeriesTransform, bytes: &[u8]) -> (r: Vec<u8>)
    ensures
        r@ == match transform {
            SteelSeriesTransform::BitPerPixel => seq![0x61u8] + bytes@ + seq![0x00u8],
            SteelSeriesTransform::BitPerPixelVertical => seq![0x0au8] + bytes@,
        },
{
    match transform {
        SteelSeriesTransform::BitPerPixel => steelseries_transform(bytes),
        SteelSeriesTransform::BitPerPixelVertical => steelseries2_transform(bytes),
    }
}

/// The HID feature report for a transformed frame: report id `0x00`, then the bytes.
pub fn hid_report(bytes: Vec<u8>) -> (r: Vec<u8>)
    ensures
        r@ == seq![0x00u8] + bytes@,
{
    let ghost given = bytes@;
    let mut bytes = bytes;
    bytes.insert(0, 0x00);
    assert(bytes@ =~= seq![0x00u8] + given);
    bytes
}

} // verus!

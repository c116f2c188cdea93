//! The picture in the system tray.

use vstd::prelude::*;

verus! {

/// What the tray shows.
#[derive(Clone, Copy, Debug, PartialEq, Eq, Structural)]
pub enum TrayStatus {
    Locked,
    Unlocked,
    Pending,
}

/// The width and the height of the picture.
pub const ICON_SIZE: usize = 32;

/// Red, green, blue and opacity.
pub open spec fn color(status: TrayStatus) -> Seq<u8> {
    match status {
        TrayStatus::Locked => seq![126u8, 135u8, 130u8, 255u8],
        TrayStatus::Unlocked => seq![22u8, 155u8, 99u8, 255u8],
        TrayStatus::Pending => seq![216u8, 145u8, 34u8, 255u8],
    }
}

/// Whether a point belongs to the padlock: a round shackle above a body, with
/// an opening in which a keyhole stands.
pub open spec fn in_lock(x: int, y: int) -> bool {
    let in_frame = 5 <= x < 27 && 6 <= y < 28;
    let in_top = y < 17 && (x - 16) * (x - 16) + (y - 14) * (y - 14) <= 100;
    let in_body = 7 <= x <= 25 && 13 <= y <= 25;
    let in_opening = 12 <= x <= 20 && 10 <= y <= 19;
    let in_keyhole = 14 <= x < 18 && 16 <= y < 23;
    (in_frame && (in_top || in_body) && !in_opening) || in_keyhole
}

/// The bytes of the picture, four for each point, row after row; points outside
/// the padlock are transparent.
pub open spec fn icon_bytes(status: TrayStatus) -> Seq<u8> {
    Seq::new(4096, |i: int| icon_byte(status, i))
}

/// One byte of the picture.
pub open spec fn icon_byte(status: TrayStatus, i: int) -> u8 {
    if in_lock(i / 4 % 32, i / 128) {
        color(status)[i % 4]
    } else {
        0
    }
}

fn color_of(status: TrayStatus) -> (r: Vec<u8>)
    ensures
        r@ == color(status),
{
    match status {
        TrayStatus::Locked => vec![126u8, 135u8, 130u8, 255u8],
        TrayStatus::Unlocked => vec![22u8, 155u8, 99u8, 255u8],
        TrayStatus::Pending => vec![216u8, 145u8, 34u8, 255u8],
    }
}

fn point_in_lock(x: i32, y: i32) -> (r: bool)
    requires
        0 <= x < 32,
        0 <= y < 32,
    ensures
        r == in_lock(x as int, y as int),
{
    if 14 <= x && x < 18 && 16 <= y && y < 23 {
        return true;
    }
    if x < 5 || x >= 27 || y < 6 || y >= 28 {
        return false;
    }
    let dx: i32 = x - 16;
    let dy: i32 = y - 14;
    assert(-1024 <= dx * dx <= 1024 && -1024 <= dy * dy <= 1024) by (nonlinear_arith)
        requires
            -32 <= dx <= 32,
            -32 <= dy <= 32,
    ;
    let in_top: bool = y < 17 && dx * dx + dy * dy <= 100;
    let in_body: bool = 7 <= x && x <= 25 && 13 <= y && y <= 25;
    let in_opening: bool = 12 <= x && x <= 20 && 10 <= y && y <= 19;
    (in_top || in_body) && !in_opening
}

/// The picture for a status, as bytes of a square of 32 points by 32.
pub fn tray_icon(status: TrayStatus) -> (r: Vec<u8>)
    ensures
        r@ == icon_bytes(status),
{
    let shade = color_of(status);
    let mut rgba: Vec<u8> = Vec::new();
    for i in 0..1024usize
        invariant
            shade@ == color(status),
            rgba@ == icon_bytes(status).take(4 * i),
    {
        let x: usize = i % 32;
        let y: usize = i / 32;
        let painted = point_in_lock(x as i32, y as i32);
        for k in 0..4usize
            invariant
                shade@ == color(status),
                i < 1024,
                painted == in_lock(i as int % 32, i as int / 32),
                rgba@ == icon_bytes(status).take(4 * i + k),
        {
            proof {
                let at = 4 * i + k;
                assert(at / 4 == i && at / 128 == i / 32 && at % 4 == k);
            }
            let byte: u8 = if painted {
                shade[k]
            } else {
                0
            };
            rgba.push(byte);
            assert(rgba@ =~= icon_bytes(status).take(4 * i + k + 1));
        }
    }
    assert(icon_bytes(status).take(4096) =~= icon_bytes(status));
    rgba
}

} // verus!

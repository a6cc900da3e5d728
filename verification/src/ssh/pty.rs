use vstd::prelude::*;
use vstd::string::*;

verus! {

/// The parameters of a pseudo-terminal request on an SSH channel.
pub struct PtyRequest {
    pub want_reply: bool,
    pub term: String,
    pub col_width: u32,
    pub row_height: u32,
    pub pix_width: u32,
    pub pix_height: u32,
}

pub open spec fn xterm_color256() -> Seq<char> {
    seq!['x', 't', 'e', 'r', 'm', '-', 'c', 'o', 'l', 'o', 'r', '2', '5', '6']
}

/// The terminal a remote shell is opened with: an `xterm-color256` of 80
/// columns and 30 rows, one pixel per cell, without waiting for a reply.
pub fn pty_request() -> (r: PtyRequest)
    ensures
        !r.want_reply,
        r.term@ == xterm_color256(),
        r.col_width == 80,
        r.row_height == 30,
        r.pix_width == 1,
        r.pix_height == 1,
{
    proof {
        reveal_strlit("xterm-color256");
        assert("xterm-color256"@ =~= xterm_color256());
    }
    PtyRequest {
        want_reply: false,
        term: String::from_str("xterm-color256"),
        col_width: 80,
        row_height: 30,
        pix_width: 1,
        pix_height: 1,
    }
}

/// A 16-bit signed size as a 32-bit unsigned one: a negative value wraps
/// around to the top of the range.
pub open spec fn widen(v: i16) -> int {
    if v >= 0 {
        v as int
    } else {
        v + 0x1_0000_0000
    }
}

/// Widening keeps every size that fits: a non-negative size is reported
/// unchanged, and any size is reported as a value congruent to it modulo
/// 2^32 (the two's-complement reading of its bits).
pub proof fn law_widen_keeps_size(v: i16, reported: u32)
    requires
        reported as int == widen(v),
    ensures
        v >= 0 ==> reported == v,
        v < 0 ==> reported >= 0x1_0000_0000 - 0x8000,
        (reported as int - v as int) % 0x1_0000_0000 == 0,
{
}

/// The width and height, in characters, that a window-change request
/// reports for a terminal resized to `width` by `height`.
pub fn window_change_size(width: i16, height: i16) -> (r: (u32, u32))
    ensures
        r.0 as int == widen(width),
        r.1 as int == widen(height),
        r.0 == width as u32,
        r.1 == height as u32,
        width >= 0 ==> r.0 == width,
        height >= 0 ==> r.1 == height,
{
    let w: u32 = width as u32;
    let h: u32 = height as u32;
    assert(w as int == widen(width)) by (bit_vector)
        requires
            w == width as u32,
    ;
    assert(h as int == widen(height)) by (bit_vector)
        requires
            h == height as u32,
    ;
    (w, h)
}

} // verus!

//! The `rect(x, y, w, h, r, g, b)` drawing call a script can make.

use vstd::prelude::*;

verus! {

/// The seven numbers of a `rect` call: position, size and colour.
pub struct RectArgs<T> {
    pub x: T,
    pub y: T,
    pub w: T,
    pub h: T,
    pub r: T,
    pub g: T,
    pub b: T,
}

/// Reads a `rect` call's arguments: the first seven in order, or nothing (the call draws
/// nothing) when fewer than seven were given; arguments past the seventh are ignored.
pub fn rect_from_args<T: Copy>(args: &Vec<T>) -> (cmd: Option<RectArgs<T>>)
    ensures
        cmd is Some <==> args@.len() >= 7,
        cmd matches Some(c) ==> {
            &&& c.x == args@[0]
            &&& c.y == args@[1]
            &&& c.w == args@[2]
            &&& c.h == args@[3]
            &&& c.r == args@[4]
            &&& c.g == args@[5]
            &&& c.b == args@[6]
        },
{
    if args.len() >= 7 {
        Some(
            RectArgs {
                x: args[0],
                y: args[1],
                w: args[2],
                h: args[3],
                r: args[4],
                g: args[5],
                b: args[6],
            },
        )
    } else {
        None
    }
}

} // verus!

//! The control-plane frame protocol.
//!
//! A client sends the daemon one frame: a single command byte followed by
//! a newline.  Two bits of the byte are meaningful: one requests a
//! configuration reload, the other asks the daemon to answer with the
//! absolute path of its configuration file, newline-terminated.  Both may
//! be set in one frame and are honored independently.  A malformed or
//! empty frame decodes to "no flags" and is a no-op, never an error.

use vstd::prelude::*;

verus! {

/// Command bit requesting a configuration reload and worker respawn.
pub const RELOAD_BIT: u8 = 2;

/// Command bit requesting the configuration file path in the response.
pub const QUERY_PATH_BIT: u8 = 4;

/// One decoded control frame: which of the two command bits were set.
#[derive(Clone, Copy, Debug, PartialEq, Eq, Structural)]
pub struct Frame {
    pub reload: bool,
    pub query_path: bool,
}

/// ASCII whitespace, as stripped from the head of a received line.
pub open spec fn is_ascii_ws(b: u8) -> bool {
    b == 32 || b == 9 || b == 10 || b == 13
}

/// A received line with its leading ASCII whitespace removed.
pub open spec fn trim_leading_ws(s: Seq<u8>) -> Seq<u8>
    decreases s.len(),
{
    if s.len() == 0 {
        s
    } else if is_ascii_ws(s.first()) {
        trim_leading_ws(s.drop_first())
    } else {
        s
    }
}

/// The command byte of a received line: its first byte after leading
/// whitespace, or zero (no flags) when nothing is left.
pub open spec fn frame_byte(s: Seq<u8>) -> u8 {
    if trim_leading_ws(s).len() == 0 {
        0
    } else {
        trim_leading_ws(s).first()
    }
}

/// The command byte that encodes the two given flags.
pub open spec fn frame_flags(reload: bool, query_path: bool) -> u8 {
    (if reload { RELOAD_BIT } else { 0 }) | (if query_path { QUERY_PATH_BIT } else { 0 })
}

/// Decode one received line into a frame.  An empty or all-whitespace
/// line has command byte zero, which sets no flags.
pub fn decode_frame(line: &Vec<u8>) -> (f: Frame)
    ensures
        f.reload == (frame_byte(line@) & RELOAD_BIT == RELOAD_BIT),
        f.query_path == (frame_byte(line@) & QUERY_PATH_BIT == QUERY_PATH_BIT),
{
    let n = line.len();
    let mut i: usize = 0;
    proof {
        assert(line@.skip(0) =~= line@);
    }
    while i < n && (line[i] == 32 || line[i] == 9 || line[i] == 10 || line[i] == 13)
        invariant
            0 <= i <= n,
            n == line@.len(),
            trim_leading_ws(line@) == trim_leading_ws(line@.skip(i as int)),
        decreases n - i,
    {
        proof {
            assert(line@.skip(i as int).first() == line@[i as int]);
            assert(line@.skip(i as int).drop_first() =~= line@.skip(i + 1));
        }
        i = i + 1;
    }
    let b: u8 = if i < n {
        proof {
            assert(trim_leading_ws(line@.skip(i as int)) == line@.skip(i as int));
        }
        line[i]
    } else {
        proof {
            assert(line@.skip(i as int).len() == 0);
        }
        0
    };
    assert(b == frame_byte(line@));
    Frame { reload: b & RELOAD_BIT == RELOAD_BIT, query_path: b & QUERY_PATH_BIT == QUERY_PATH_BIT }
}

/// Encode a command frame as the client sends it: the flag byte, then a
/// newline.
pub fn encode_frame(reload: bool, query_path: bool) -> (r: Vec<u8>)
    ensures
        r@ =~= seq![frame_flags(reload, query_path), 10u8],
{
    let flags: u8 = (if reload { RELOAD_BIT } else { 0 }) | (if query_path {
        QUERY_PATH_BIT
    } else {
        0
    });
    let mut r: Vec<u8> = Vec::new();
    r.push(flags);
    r.push(10);
    r
}

/// The daemon's answer to a path query: the configuration file path,
/// newline-terminated.
pub fn encode_path_response(path: &Vec<u8>) -> (r: Vec<u8>)
    ensures
        r@ == path@.push(10u8),
{
    let mut r: Vec<u8> = Vec::new();
    let n = path.len();
    for i in 0..n
        invariant
            n == path@.len(),
            r@ =~= path@.subrange(0, i as int),
    {
        r.push(path[i]);
    }
    proof {
        assert(path@.subrange(0, n as int) =~= path@);
    }
    r.push(10);
    r
}

/// A frame decodes back to the flags it was encoded from: the frame
/// protocol loses no command.
pub proof fn lemma_frame_round_trip(reload: bool, query_path: bool)
    ensures
        frame_byte(seq![frame_flags(reload, query_path), 10u8]) == frame_flags(reload, query_path),
        (frame_flags(reload, query_path) & RELOAD_BIT == RELOAD_BIT) == reload,
        (frame_flags(reload, query_path) & QUERY_PATH_BIT == QUERY_PATH_BIT) == query_path,
{
    let f = frame_flags(reload, query_path);
    assert((2u8 | 0u8) & 2u8 == 2u8) by (bit_vector);
    assert((2u8 | 4u8) & 2u8 == 2u8) by (bit_vector);
    assert((0u8 | 0u8) & 2u8 == 0u8) by (bit_vector);
    assert((0u8 | 4u8) & 2u8 == 0u8) by (bit_vector);
    assert((2u8 | 0u8) & 4u8 == 0u8) by (bit_vector);
    assert((2u8 | 4u8) & 4u8 == 4u8) by (bit_vector);
    assert((0u8 | 0u8) & 4u8 == 0u8) by (bit_vector);
    assert((0u8 | 4u8) & 4u8 == 4u8) by (bit_vector);
    assert(0u8 | 0u8 == 0u8) by (bit_vector);
    assert(2u8 | 0u8 == 2u8) by (bit_vector);
    assert(0u8 | 4u8 == 4u8) by (bit_vector);
    assert(2u8 | 4u8 == 6u8) by (bit_vector);
    assert(!is_ascii_ws(f));
    assert(seq![f, 10u8].first() == f);
}

} // verus!

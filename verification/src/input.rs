//! What the core hands back to the outside: encodings for key input under
//! the current modes, paste bracketing, coalescing of resize events, and
//! the I/O loop's reaction to a read.

use vstd::prelude::*;

verus! {

/// A cursor key, as the input handler reports it.
#[derive(Clone, Copy, PartialEq, Eq, Structural, Debug)]
pub enum ArrowKey {
    Up,
    Down,
    Right,
    Left,
}

/// The final byte of an arrow key's sequence.
pub open spec fn arrow_code(k: ArrowKey) -> u8 {
    match k {
        ArrowKey::Up => 0x41,
        ArrowKey::Down => 0x42,
        ArrowKey::Right => 0x43,
        ArrowKey::Left => 0x44,
    }
}

/// Encodes an arrow key for the child process: the application-cursor-keys
/// mode decides between the SS3 and the CSI introducer.
pub fn encode_arrow(k: ArrowKey, app_cursor: bool) -> (r: Vec<u8>)
    ensures
        r@ == seq![
            0x1Bu8,
            if app_cursor {
                0x4Fu8
            } else {
                0x5Bu8
            },
            arrow_code(k),
        ],
{
    let mut r: Vec<u8> = Vec::new();
    r.push(0x1B);
    r.push(
        if app_cursor {
            0x4F
        } else {
            0x5B
        },
    );
    r.push(
        match k {
            ArrowKey::Up => 0x41,
            ArrowKey::Down => 0x42,
            ArrowKey::Right => 0x43,
            ArrowKey::Left => 0x44,
        },
    );
    proof {
        assert(r@ =~= seq![
            0x1Bu8,
            if app_cursor {
                0x4Fu8
            } else {
                0x5Bu8
            },
            arrow_code(k),
        ]);
    }
    r
}

/// The opening paste marker.
pub open spec fn paste_start() -> Seq<u8> {
    seq![0x1Bu8, 0x5Bu8, 0x32u8, 0x30u8, 0x30u8, 0x7Eu8]
}

/// The closing paste marker.
pub open spec fn paste_end() -> Seq<u8> {
    seq![0x1Bu8, 0x5Bu8, 0x32u8, 0x30u8, 0x31u8, 0x7Eu8]
}

/// Encodes pasted text for the child process: wrapped in the paste
/// markers exactly when bracketed-paste mode is set, untouched otherwise.
pub fn encode_paste(data: &Vec<u8>, bracketed: bool) -> (r: Vec<u8>)
    ensures
        bracketed ==> r@ == paste_start() + data@ + paste_end(),
        !bracketed ==> r@ == data@,
{
    let mut r: Vec<u8> = Vec::new();
    if bracketed {
        r.push(0x1B);
        r.push(0x5B);
        r.push(0x32);
        r.push(0x30);
        r.push(0x30);
        r.push(0x7E);
    }
    let mut i: usize = 0;
    while i < data.len()
        invariant
            i <= data@.len(),
            bracketed ==> r@ == paste_start() + data@.take(i as int),
            !bracketed ==> r@ == data@.take(i as int),
        decreases data@.len() - i,
    {
        proof {
            if bracketed {
                assert((paste_start() + data@.take(i as int)).push(data@[i as int])
                    =~= paste_start() + data@.take(i as int + 1));
            } else {
                assert(data@.take(i as int).push(data@[i as int]) =~= data@.take(i as int + 1));
            }
        }
        r.push(data[i]);
        i = i + 1;
    }
    proof {
        assert(data@.take(data@.len() as int) =~= data@);
    }
    if bracketed {
        r.push(0x1B);
        r.push(0x5B);
        r.push(0x32);
        r.push(0x30);
        r.push(0x31);
        r.push(0x7E);
        proof {
            assert(r@ =~= paste_start() + data@ + paste_end());
        }
    }
    r
}

/// Coalesces a burst of resize notifications into the most recent one, so
/// one reflow serves the whole burst.
pub fn coalesce_resizes(events: &Vec<(u16, u16)>) -> (r: Option<(u16, u16)>)
    ensures
        events@.len() == 0 ==> r is None,
        events@.len() > 0 ==> r == Some(events@[events@.len() - 1]),
{
    if events.len() == 0 {
        None
    } else {
        Some(events[events.len() - 1])
    }
}

/// What one read from the child's channel reported.
#[derive(Clone, Copy, PartialEq, Eq, Structural, Debug)]
pub enum PtyRead {
    /// Some bytes arrived.
    Data(usize),
    /// Nothing to read yet.
    WouldBlock,
    /// The child closed its side: the session ended.
    Eof,
    /// Another I/O fault: the session cannot continue.
    Fault,
}

/// What the I/O loop does next.
#[derive(Clone, Copy, PartialEq, Eq, Structural, Debug)]
pub enum IoStep {
    /// Feed this many bytes to the decoder, then read again.
    Process(usize),
    /// Wait for readiness.
    Wait,
    /// Stop, reporting whether the child ended the session itself.
    Exit(bool),
}

/// The I/O loop's decision for one read result: data is decoded, an empty
/// ready read and end-of-file both mean the child is gone (reported as
/// the session ending, never retried), a would-block waits, and any other
/// fault stops the session as fatal.
pub fn io_decision(r: PtyRead) -> (s: IoStep)
    ensures
        s == match r {
            PtyRead::Data(n) => if n == 0 {
                IoStep::Exit(true)
            } else {
                IoStep::Process(n)
            },
            PtyRead::WouldBlock => IoStep::Wait,
            PtyRead::Eof => IoStep::Exit(true),
            PtyRead::Fault => IoStep::Exit(false),
        },
{
    match r {
        PtyRead::Data(n) => {
            if n == 0 {
                IoStep::Exit(true)
            } else {
                IoStep::Process(n)
            }
        },
        PtyRead::WouldBlock => IoStep::Wait,
        PtyRead::Eof => IoStep::Exit(true),
        PtyRead::Fault => IoStep::Exit(false),
    }
}

} // verus!

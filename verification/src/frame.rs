//! The frame decoder: one attempt takes at most one complete frame from the
//! head of the accumulation buffer.

use crate::buffer::{advance, as_slice, contents};
use bytes::BytesMut;
use vstd::prelude::*;
use vstd::slice::slice_to_vec;

verus! {

/// Introduces a command; doubled, it stands for one data byte of its value.
pub const IAC: u8 = 0xFF;

/// Second byte of a command that opens a subnegotiation block.
pub const SB: u8 = 0xFA;

/// Follows `IAC` to close a subnegotiation block.
pub const SE: u8 = 0xF0;

/// First byte of a control-escape sequence.
pub const ESC: u8 = 0x1B;

/// Second byte of a control-escape sequence, `[`.
pub const BRACKET: u8 = 0x5B;

/// Lowest final byte of a control-escape sequence, `@`.
pub const FINAL_MIN: u8 = 0x40;

/// Highest final byte of a control-escape sequence, `~`.
pub const FINAL_MAX: u8 = 0x7E;

#[derive(Debug, PartialEq)]
pub enum TelnetFrame {
    /// A complete command, markers included.
    IAC(Vec<u8>),
    /// A complete control-escape sequence, introducer and final byte included.
    CSI(Vec<u8>),
    /// A run of data bytes.
    Data(Vec<u8>),
    /// No complete frame is buffered yet.
    Next,
}

/// A frame as a mathematical value.
pub enum FrameView {
    IAC(Seq<u8>),
    CSI(Seq<u8>),
    Data(Seq<u8>),
    Next,
}

impl View for TelnetFrame {
    type V = FrameView;

    open spec fn view(&self) -> FrameView {
        match self {
            TelnetFrame::IAC(bytes) => FrameView::IAC(bytes@),
            TelnetFrame::CSI(bytes) => FrameView::CSI(bytes@),
            TelnetFrame::Data(bytes) => FrameView::Data(bytes@),
            TelnetFrame::Next => FrameView::Next,
        }
    }
}

impl FrameView {
    /// The bytes that the frame carries; none for `Next`.
    pub open spec fn payload(self) -> Seq<u8> {
        match self {
            FrameView::IAC(bytes) => bytes,
            FrameView::CSI(bytes) => bytes,
            FrameView::Data(bytes) => bytes,
            FrameView::Next => Seq::empty(),
        }
    }
}

/// Whether the two bytes at `i` and `i + 1` close a subnegotiation block.
pub open spec fn terminator_at(s: Seq<u8>, i: int) -> bool {
    0 <= i && i + 1 < s.len() && s[i] == IAC && s[i + 1] == SE
}

/// Whether `i` is the place of the first terminator in `s`.
pub open spec fn is_first_terminator(s: Seq<u8>, i: int) -> bool {
    terminator_at(s, i) && forall|j: int| 0 <= j < i ==> !terminator_at(s, j)
}

/// The place of the first terminator in `s`, if it holds one.
pub open spec fn first_terminator(s: Seq<u8>) -> Option<int> {
    if exists|i: int| is_first_terminator(s, i) {
        Some(choose|i: int| is_first_terminator(s, i))
    } else {
        None
    }
}

/// Whether `b` can end a control-escape sequence.
pub open spec fn is_final_byte(b: u8) -> bool {
    FINAL_MIN <= b <= FINAL_MAX
}

/// Whether a final byte stands at `i`, behind the two-byte introducer.
pub open spec fn final_at(s: Seq<u8>, i: int) -> bool {
    2 <= i < s.len() && is_final_byte(s[i])
}

/// Whether `i` is the place of the first final byte behind the introducer.
pub open spec fn is_first_final(s: Seq<u8>, i: int) -> bool {
    final_at(s, i) && forall|j: int| 2 <= j < i ==> !final_at(s, j)
}

/// The place of the first final byte behind the introducer, if there is one.
pub open spec fn first_final(s: Seq<u8>) -> Option<int> {
    if exists|i: int| is_first_final(s, i) {
        Some(choose|i: int| is_first_final(s, i))
    } else {
        None
    }
}

/// Whether `b` starts a command or a control-escape sequence.
pub open spec fn is_introducer(b: u8) -> bool {
    b == IAC || b == ESC
}

/// Whether an introducer stands at `i`.
pub open spec fn introducer_at(s: Seq<u8>, i: int) -> bool {
    0 <= i < s.len() && is_introducer(s[i])
}

/// Whether `i` is the place of the first introducer in `s`.
pub open spec fn is_first_introducer(s: Seq<u8>, i: int) -> bool {
    introducer_at(s, i) && forall|j: int| 0 <= j < i ==> !introducer_at(s, j)
}

/// The place of the first introducer in `s`, if it holds one.
pub open spec fn first_introducer(s: Seq<u8>) -> Option<int> {
    if exists|i: int| is_first_introducer(s, i) {
        Some(choose|i: int| is_first_introducer(s, i))
    } else {
        None
    }
}

/// A first terminator is the only one: `first_terminator` names it.
pub proof fn lemma_first_terminator(s: Seq<u8>, i: int)
    requires
        is_first_terminator(s, i),
    ensures
        first_terminator(s) == Some(i),
{
    let c = choose|k: int| is_first_terminator(s, k);
    assert(is_first_terminator(s, c));
    if c < i {
        assert(!terminator_at(s, c));
    } else if i < c {
        assert(!terminator_at(s, i));
    }
}

/// A first final byte is the only one: `first_final` names it.
pub proof fn lemma_first_final(s: Seq<u8>, i: int)
    requires
        is_first_final(s, i),
    ensures
        first_final(s) == Some(i),
{
    let c = choose|k: int| is_first_final(s, k);
    assert(is_first_final(s, c));
    if c < i {
        assert(!final_at(s, c));
    } else if i < c {
        assert(!final_at(s, i));
    }
}

/// A first introducer is the only one: `first_introducer` names it.
pub proof fn lemma_first_introducer(s: Seq<u8>, i: int)
    requires
        is_first_introducer(s, i),
    ensures
        first_introducer(s) == Some(i),
{
    let c = choose|k: int| is_first_introducer(s, k);
    assert(is_first_introducer(s, c));
    if c < i {
        assert(!introducer_at(s, c));
    } else if i < c {
        assert(!introducer_at(s, i));
    }
}

/// Where an introducer stands, a first one stands at or before it.
pub proof fn lemma_introducer_has_first(s: Seq<u8>, i: int)
    requires
        introducer_at(s, i),
    ensures
        first_introducer(s) matches Some(first) && first <= i && is_first_introducer(s, first),
    decreases i,
{
    if exists|j: int| 0 <= j < i && introducer_at(s, j) {
        let j = choose|j: int| 0 <= j < i && introducer_at(s, j);
        lemma_introducer_has_first(s, j);
    } else {
        lemma_first_introducer(s, i);
    }
}

/// Finds the first place at which `IAC SE` stands in `bytes`.
pub fn find_terminator(bytes: &[u8]) -> (found: Option<usize>)
    ensures
        first_terminator(bytes@) == match found {
            Some(i) => Some(i as int),
            None => None,
        },
{
    let len: usize = bytes.len();
    let mut i: usize = 0;
    while i < len && len - i >= 2
        invariant
            len == bytes@.len(),
            i <= len,
            forall|j: int| 0 <= j < i ==> !terminator_at(bytes@, j),
        decreases len - i,
    {
        if bytes[i] == IAC && bytes[i + 1] == SE {
            proof {
                lemma_first_terminator(bytes@, i as int);
            }
            return Some(i);
        }
        i += 1;
    }
    assert(forall|j: int| !terminator_at(bytes@, j));
    None
}

/// Finds the first final byte behind the two-byte introducer of `bytes`.
pub fn find_final(bytes: &[u8]) -> (found: Option<usize>)
    ensures
        first_final(bytes@) == match found {
            Some(i) => Some(i as int),
            None => None,
        },
{
    let len: usize = bytes.len();
    let mut i: usize = 2;
    while i < len
        invariant
            len == bytes@.len(),
            2 <= i,
            forall|j: int| 2 <= j < i ==> !final_at(bytes@, j),
        decreases len - i,
    {
        if FINAL_MIN <= bytes[i] && bytes[i] <= FINAL_MAX {
            proof {
                lemma_first_final(bytes@, i as int);
            }
            return Some(i);
        }
        i += 1;
    }
    assert(forall|j: int| !final_at(bytes@, j));
    None
}

/// Finds the first byte of `bytes` that starts a command or a control-escape
/// sequence.
pub fn find_introducer(bytes: &[u8]) -> (found: Option<usize>)
    ensures
        first_introducer(bytes@) == match found {
            Some(i) => Some(i as int),
            None => None,
        },
{
    let len: usize = bytes.len();
    let mut i: usize = 0;
    while i < len
        invariant
            len == bytes@.len(),
            forall|j: int| 0 <= j < i ==> !introducer_at(bytes@, j),
        decreases len - i,
    {
        if bytes[i] == IAC || bytes[i] == ESC {
            proof {
                lemma_first_introducer(bytes@, i as int);
            }
            return Some(i);
        }
        i += 1;
    }
    assert(forall|j: int| !introducer_at(bytes@, j));
    None
}

/// What command decoding makes of the buffered bytes `s`: the frame and the
/// number of bytes that it takes from the head, or `None` where no complete
/// command is buffered.
pub open spec fn iac_frame(s: Seq<u8>) -> Option<(FrameView, nat)> {
    if s.len() < 2 || s[0] != IAC {
        None
    } else if s[1] == IAC {
        Some((FrameView::Data(seq![IAC]), 2))
    } else if s[1] == SB {
        match first_terminator(s) {
            Some(i) => Some((FrameView::IAC(s.take(i + 2)), (i + 2) as nat)),
            None => None,
        }
    } else if s.len() >= 3 {
        Some((FrameView::IAC(s.take(3)), 3))
    } else {
        None
    }
}

/// What control-escape decoding makes of the buffered bytes `s`.
pub open spec fn csi_frame(s: Seq<u8>) -> Option<(FrameView, nat)> {
    if s.len() < 2 || s[0] != ESC || s[1] != BRACKET {
        None
    } else {
        match first_final(s) {
            Some(i) => Some((FrameView::CSI(s.take(i + 1)), (i + 1) as nat)),
            None => None,
        }
    }
}

/// The length of the longest prefix of `s` that holds no introducer.
pub open spec fn plain_len(s: Seq<u8>) -> nat {
    match first_introducer(s) {
        Some(i) => i as nat,
        None => s.len(),
    }
}

/// What data decoding makes of the buffered bytes `s`: the longest prefix
/// without an introducer, where that prefix is not empty.
pub open spec fn data_frame(s: Seq<u8>) -> Option<(FrameView, nat)> {
    if plain_len(s) == 0 {
        None
    } else {
        Some((FrameView::Data(s.take(plain_len(s) as int)), plain_len(s)))
    }
}

/// What one decoding attempt makes of the buffered bytes `s`: the first match
/// among command, control-escape and data decoding, in that order.
pub open spec fn decoded(s: Seq<u8>) -> Option<(FrameView, nat)> {
    if iac_frame(s) is Some {
        iac_frame(s)
    } else if csi_frame(s) is Some {
        csi_frame(s)
    } else {
        data_frame(s)
    }
}

/// Copies out the first `count` bytes of the buffer and removes them from it.
fn take_front(buffer: &mut BytesMut, count: usize) -> (bytes: Vec<u8>)
    requires
        count <= contents(*old(buffer)).len(),
    ensures
        bytes@ == contents(*old(buffer)).take(count as int),
        contents(*final(buffer)) == contents(*old(buffer)).skip(count as int),
{
    let head = buffer.split_to(count);
    slice_to_vec(as_slice(&head))
}

impl TelnetFrame {
    /// Attempts to take one command from the head of the buffer.
    ///
    /// A doubled `IAC` yields the data byte it stands for. A command that is
    /// not yet complete is left in the buffer.
    pub fn parse_iac(buffer: &mut BytesMut) -> (frame: Option<Self>)
        ensures
            match iac_frame(contents(*old(buffer))) {
                Some((view, consumed)) => frame matches Some(f) && f@ == view && contents(
                    *final(buffer),
                ) == contents(*old(buffer)).skip(consumed as int),
                None => frame is None && contents(*final(buffer)) == contents(*old(buffer)),
            },
    {
        let bytes = as_slice(buffer);
        let len: usize = bytes.len();
        if len < 2 || bytes[0] != IAC {
            return None;
        }
        let second: u8 = bytes[1];
        if second == IAC {
            advance(buffer, 2);
            let literal: Vec<u8> = vec![IAC];
            assert(literal@ =~= seq![IAC]);
            Some(TelnetFrame::Data(literal))
        } else if second == SB {
            match find_terminator(bytes) {
                Some(i) => Some(TelnetFrame::IAC(take_front(buffer, i + 2))),
                None => None,
            }
        } else if len >= 3 {
            Some(TelnetFrame::IAC(take_front(buffer, 3)))
        } else {
            None
        }
    }

    /// Attempts to take one control-escape sequence from the head of the
    /// buffer. A sequence whose final byte has not arrived is left there.
    pub fn parse_csi(buffer: &mut BytesMut) -> (frame: Option<Self>)
        ensures
            match csi_frame(contents(*old(buffer))) {
                Some((view, consumed)) => frame matches Some(f) && f@ == view && contents(
                    *final(buffer),
                ) == contents(*old(buffer)).skip(consumed as int),
                None => frame is None && contents(*final(buffer)) == contents(*old(buffer)),
            },
    {
        let bytes = as_slice(buffer);
        if bytes.len() < 2 || bytes[0] != ESC || bytes[1] != BRACKET {
            return None;
        }
        match find_final(bytes) {
            Some(i) => Some(TelnetFrame::CSI(take_front(buffer, i + 1))),
            None => None,
        }
    }

    /// Attempts to take the data bytes that stand before the first
    /// introducer. An empty run is no frame.
    pub fn parse_data(buffer: &mut BytesMut) -> (frame: Option<Self>)
        ensures
            match data_frame(contents(*old(buffer))) {
                Some((view, consumed)) => frame matches Some(f) && f@ == view && contents(
                    *final(buffer),
                ) == contents(*old(buffer)).skip(consumed as int),
                None => frame is None && contents(*final(buffer)) == contents(*old(buffer)),
            },
    {
        let bytes = as_slice(buffer);
        match find_introducer(bytes) {
            Some(i) => {
                if i == 0 {
                    None
                } else {
                    Some(TelnetFrame::Data(take_front(buffer, i)))
                }
            },
            None => {
                if buffer.is_empty() {
                    return None;
                }
                let raw_bytes = slice_to_vec(as_slice(buffer));
                buffer.clear();
                assert(raw_bytes@ == contents(*old(buffer)).take(raw_bytes@.len() as int));
                assert(contents(*buffer) == contents(*old(buffer)).skip(raw_bytes@.len() as int));
                Some(TelnetFrame::Data(raw_bytes))
            },
        }
    }

    /// Makes one decoding attempt: a command first, then a control-escape
    /// sequence, then data. `Next` says that no complete frame is buffered;
    /// the buffer is then as it was.
    pub fn decode(buffer: &mut BytesMut) -> (frame: Self)
        ensures
            match decoded(contents(*old(buffer))) {
                Some((view, consumed)) => frame@ == view && contents(*final(buffer)) == contents(
                    *old(buffer),
                ).skip(consumed as int),
                None => frame is Next && contents(*final(buffer)) == contents(*old(buffer)),
            },
            frame is Next <==> decoded(contents(*old(buffer))) is None,
    {
        if let Some(frame) = TelnetFrame::parse_iac(buffer) {
            return frame;
        }
        if let Some(frame) = TelnetFrame::parse_csi(buffer) {
            return frame;
        }
        match TelnetFrame::parse_data(buffer) {
            Some(frame) => frame,
            None => TelnetFrame::Next,
        }
    }
}

} // verus!

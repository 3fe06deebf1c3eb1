//! What holds of every decoding attempt, stated over the bytes buffered.

use crate::frame::{
    csi_frame, decoded, final_at, first_final, first_terminator, iac_frame,
    introducer_at, is_final_byte, is_first_final, is_first_introducer, is_first_terminator,
    is_introducer, lemma_first_final, lemma_first_introducer, lemma_first_terminator,
    lemma_introducer_has_first, terminator_at, FrameView, BRACKET, ESC, IAC, SB,
};
use vstd::prelude::*;

verus! {

/// Whether `s` is a run of data: not empty, and without an introducer.
pub open spec fn is_plain(s: Seq<u8>) -> bool {
    s.len() > 0 && forall|i: int| 0 <= i < s.len() ==> !is_introducer(#[trigger] s[i])
}

/// A match takes at least one byte and no more than are buffered, and its
/// frame is never `Next`: an attempt either makes progress or changes nothing.
pub proof fn lemma_match_makes_progress(s: Seq<u8>)
    ensures
        decoded(s) matches Some((frame, consumed)) ==> 0 < consumed <= s.len() && !(frame
            is Next),
{
}

/// Whether `s` starts with a doubled `IAC`.
pub open spec fn starts_with_doubled_iac(s: Seq<u8>) -> bool {
    s.len() >= 2 && s[0] == IAC && s[1] == IAC
}

/// A frame carries the bytes that its attempt took from the head of the
/// buffer, in their order. The one exception is a doubled `IAC`, of which the
/// frame carries the first byte only.
pub proof fn lemma_frame_carries_what_was_taken(s: Seq<u8>)
    ensures
        decoded(s) matches Some((frame, consumed)) ==> frame.payload() == if starts_with_doubled_iac(
            s,
        ) {
            s.take(1)
        } else {
            s.take(consumed as int)
        },
{
    if starts_with_doubled_iac(s) {
        assert(s.take(1) =~= seq![IAC]);
    }
}

/// With nothing buffered there is nothing to decode, however often it is
/// tried.
pub proof fn lemma_empty_is_pending()
    ensures
        decoded(Seq::<u8>::empty()) is None,
{
}

/// A run of data that is all that is buffered comes out whole, as one `Data`
/// frame, and leaves nothing behind.
pub proof fn lemma_plain_bytes_are_one_frame(s: Seq<u8>)
    requires
        is_plain(s),
    ensures
        decoded(s) == Some((FrameView::Data(s), s.len())),
        s.skip(s.len() as int) == Seq::<u8>::empty(),
{
    assert(forall|i: int| !introducer_at(s, i));
    assert(s.take(s.len() as int) =~= s);
}

/// A run of data ends where the next introducer stands: the bytes before it
/// are one `Data` frame, and the introducer and what follows are left.
pub proof fn lemma_data_stops_at_introducer(run: Seq<u8>, rest: Seq<u8>)
    requires
        is_plain(run),
        rest.len() > 0,
        is_introducer(rest[0]),
    ensures
        decoded(run + rest) == Some((FrameView::Data(run), run.len())),
        (run + rest).skip(run.len() as int) == rest,
{
    let s = run + rest;
    assert(forall|j: int| 0 <= j < run.len() ==> s[j] == run[j]);
    assert(s[run.len() as int] == rest[0]);
    assert(is_first_introducer(s, run.len() as int));
    lemma_first_introducer(s, run.len() as int);
    assert(!is_introducer(s[0]));
    assert(s.take(run.len() as int) =~= run);
    assert(s.skip(run.len() as int) =~= rest);
}

/// A doubled `IAC` is one data byte of that value; what follows the pair is
/// left as it is.
pub proof fn lemma_doubled_iac_is_data(rest: Seq<u8>)
    ensures
        decoded(seq![IAC, IAC] + rest) == Some((FrameView::Data(seq![IAC]), 2nat)),
        (seq![IAC, IAC] + rest).skip(2) == rest,
{
    let s = seq![IAC, IAC] + rest;
    assert(s[0] == IAC && s[1] == IAC);
    assert(s.skip(2) =~= rest);
}

/// `IAC`, a second byte that is neither `IAC` nor `SB`, and one byte more are
/// a command of three bytes, whatever the two bytes are; what follows is
/// left as it is.
pub proof fn lemma_three_byte_command(verb: u8, option: u8, rest: Seq<u8>)
    requires
        verb != IAC,
        verb != SB,
    ensures
        decoded(seq![IAC, verb, option] + rest) == Some(
            (FrameView::IAC(seq![IAC, verb, option]), 3nat),
        ),
        (seq![IAC, verb, option] + rest).skip(3) == rest,
{
    let s = seq![IAC, verb, option] + rest;
    assert(s[0] == IAC && s[1] == verb);
    assert(s.take(3) =~= seq![IAC, verb, option]);
    assert(s.skip(3) =~= rest);
}

/// A subnegotiation block runs from `IAC SB` through the first `IAC SE`: it
/// is one command, and what follows it is left as it is, a later `IAC SE`
/// included.
pub proof fn lemma_subnegotiation_ends_at_first_terminator(block: Seq<u8>, rest: Seq<u8>)
    requires
        block.len() >= 2,
        block[0] == IAC,
        block[1] == SB,
        is_first_terminator(block, block.len() - 2),
    ensures
        decoded(block + rest) == Some((FrameView::IAC(block), block.len())),
        (block + rest).skip(block.len() as int) == rest,
{
    let s = block + rest;
    let i = block.len() - 2;
    assert(forall|j: int| 0 <= j < block.len() ==> s[j] == block[j]);
    assert forall|j: int| 0 <= j < i implies !terminator_at(s, j) by {
        assert(!terminator_at(block, j));
    }
    assert(terminator_at(s, i));
    lemma_first_terminator(s, i);
    assert(s.take(i + 2) =~= block);
    assert(s.skip(block.len() as int) =~= rest);
}

/// A subnegotiation block whose terminator is nowhere in the buffer is not
/// decoded: the attempt waits for more bytes.
pub proof fn lemma_open_subnegotiation_is_pending(s: Seq<u8>)
    requires
        s.len() >= 2,
        s[0] == IAC,
        s[1] == SB,
        forall|i: int| !terminator_at(s, i),
    ensures
        decoded(s) is None,
{
    assert(forall|i: int| is_first_terminator(s, i) ==> terminator_at(s, i));
    assert(introducer_at(s, 0));
    assert(is_first_introducer(s, 0));
    lemma_first_introducer(s, 0);
}

/// A command whose second or third byte has not arrived is not decoded.
pub proof fn lemma_short_command_is_pending(s: Seq<u8>)
    requires
        1 <= s.len() <= 2,
        s[0] == IAC,
        s.len() == 2 ==> s[1] != IAC && s[1] != SB,
    ensures
        decoded(s) is None,
{
    assert(is_first_introducer(s, 0));
    lemma_first_introducer(s, 0);
}

/// A control-escape sequence runs from `ESC [` through the first final byte
/// behind them: it is one frame, and what follows it is left as it is.
pub proof fn lemma_control_escape_ends_at_first_final(sequence: Seq<u8>, rest: Seq<u8>)
    requires
        sequence.len() >= 3,
        sequence[0] == ESC,
        sequence[1] == BRACKET,
        is_final_byte(sequence.last()),
        forall|j: int| 2 <= j < sequence.len() - 1 ==> !is_final_byte(#[trigger] sequence[j]),
    ensures
        decoded(sequence + rest) == Some((FrameView::CSI(sequence), sequence.len())),
        (sequence + rest).skip(sequence.len() as int) == rest,
{
    let s = sequence + rest;
    let i = sequence.len() - 1;
    assert(forall|j: int| 0 <= j < sequence.len() ==> s[j] == sequence[j]);
    assert(final_at(s, i));
    assert(is_first_final(s, i));
    lemma_first_final(s, i);
    assert(s.take(i + 1) =~= sequence);
    assert(s.skip(sequence.len() as int) =~= rest);
}

/// A control-escape sequence whose final byte is nowhere in the buffer is not
/// decoded: the attempt waits for more bytes.
pub proof fn lemma_open_control_escape_is_pending(s: Seq<u8>)
    requires
        s.len() >= 2,
        s[0] == ESC,
        s[1] == BRACKET,
        forall|j: int| 2 <= j < s.len() ==> !is_final_byte(#[trigger] s[j]),
    ensures
        decoded(s) is None,
{
    assert(forall|i: int| is_first_final(s, i) ==> final_at(s, i));
    assert(is_first_introducer(s, 0));
    lemma_first_introducer(s, 0);
}

/// The bytes of a command are decoded in the same way whatever follows them.
pub proof fn lemma_command_before_more(command: Seq<u8>, rest: Seq<u8>)
    requires
        iac_frame(command) == Some((FrameView::IAC(command), command.len())),
    ensures
        decoded(command + rest) == Some((FrameView::IAC(command), command.len())),
        (command + rest).skip(command.len() as int) == rest,
{
    let s = command + rest;
    assert(forall|j: int| 0 <= j < command.len() ==> s[j] == command[j]);
    assert(s.skip(command.len() as int) =~= rest);
    if command[1] == SB {
        let i = first_terminator(command)->0;
        assert(is_first_terminator(command, i));
        assert(i + 2 == command.len());
        lemma_subnegotiation_ends_at_first_terminator(command, rest);
    } else {
        assert(command.len() == 3);
        assert(s.take(3) =~= command);
    }
}

/// The bytes of a control-escape sequence are decoded in the same way
/// whatever follows them.
pub proof fn lemma_control_escape_before_more(sequence: Seq<u8>, rest: Seq<u8>)
    requires
        csi_frame(sequence) == Some((FrameView::CSI(sequence), sequence.len())),
    ensures
        decoded(sequence + rest) == Some((FrameView::CSI(sequence), sequence.len())),
        (sequence + rest).skip(sequence.len() as int) == rest,
{
    let i = first_final(sequence)->0;
    assert(is_first_final(sequence, i));
    assert(i + 1 == sequence.len());
    assert forall|j: int| 2 <= j < sequence.len() - 1 implies !is_final_byte(
        #[trigger] sequence[j],
    ) by {
        assert(!final_at(sequence, j));
    }
    lemma_control_escape_ends_at_first_final(sequence, rest);
}

/// The bytes of a frame that an attempt yields are, buffered alone, that
/// frame again. The one exception is the data byte that a doubled `IAC`
/// yields: alone it is an introducer.
pub proof fn lemma_frame_decodes_alone(s: Seq<u8>)
    requires
        !starts_with_doubled_iac(s),
    ensures
        decoded(s) matches Some((frame, consumed)) ==> decoded(frame.payload()) == Some(
            (frame, consumed),
        ) && match frame {
            FrameView::IAC(bytes) => iac_frame(bytes) == Some((frame, bytes.len())),
            FrameView::CSI(bytes) => csi_frame(bytes) == Some((frame, bytes.len())),
            FrameView::Data(bytes) => is_plain(bytes),
            FrameView::Next => false,
        },
{
    if let Some((frame, consumed)) = decoded(s) {
        let head = s.take(consumed as int);
        assert(forall|j: int| 0 <= j < consumed ==> head[j] == s[j]);
        assert(head.take(consumed as int) =~= head);
        if iac_frame(s) is Some {
            if s[1] == SB {
                let i = first_terminator(s)->0;
                assert(is_first_terminator(s, i));
                assert forall|j: int| 0 <= j < i implies !terminator_at(head, j) by {
                    assert(!terminator_at(s, j));
                }
                assert(terminator_at(head, i));
                lemma_first_terminator(head, i);
            }
        } else if csi_frame(s) is Some {
            let i = first_final(s)->0;
            assert(is_first_final(s, i));
            assert forall|j: int| 2 <= j < i implies !final_at(head, j) by {
                assert(!final_at(s, j));
            }
            assert(final_at(head, i));
            lemma_first_final(head, i);
        } else {
            assert forall|j: int| 0 <= j < head.len() implies !is_introducer(#[trigger] head[j]) by {
                if introducer_at(s, j) {
                    lemma_introducer_has_first(s, j);
                }
            }
            lemma_plain_bytes_are_one_frame(head);
        }
    }
}

/// Round trip: the bytes of a command, of a control-escape sequence and of a
/// run of data, one behind the other, come out of three attempts as those
/// three frames in that order, and then nothing is left to decode.
pub proof fn lemma_round_trip(command: Seq<u8>, sequence: Seq<u8>, data: Seq<u8>)
    requires
        iac_frame(command) == Some((FrameView::IAC(command), command.len())),
        csi_frame(sequence) == Some((FrameView::CSI(sequence), sequence.len())),
        is_plain(data),
    ensures
        decoded(command + (sequence + data)) == Some((FrameView::IAC(command), command.len())),
        (command + (sequence + data)).skip(command.len() as int) == sequence + data,
        decoded(sequence + data) == Some((FrameView::CSI(sequence), sequence.len())),
        (sequence + data).skip(sequence.len() as int) == data,
        decoded(data) == Some((FrameView::Data(data), data.len())),
        decoded(data.skip(data.len() as int)) is None,
{
    lemma_command_before_more(command, sequence + data);
    lemma_control_escape_before_more(sequence, data);
    lemma_plain_bytes_are_one_frame(data);
    lemma_empty_is_pending();
}

} // verus!

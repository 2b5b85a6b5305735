use vstd::prelude::*;

verus! {

/// Last elapsed-frame number that is still written to disk.
pub const CAPTURE_LAST_FRAME: u64 = 450;

/// What the renderer does with a finished frame.
#[derive(Clone, Copy, PartialEq, Eq, Structural, Debug)]
pub enum CaptureAction {
    /// Write the frame to disk.
    Capture,
    /// Do nothing: the single frame right after the capture window ends is
    /// neither captured nor announced. This gap is part of the established
    /// behaviour and is kept deliberately.
    Idle,
    /// Print the completion message; nothing is written.
    Finish,
}

/// Decide what to do with the frame numbered `elapsed_frames`: frames up to
/// and including 450 are captured, frame 451 triggers nothing at all, and
/// every later frame only prints the completion message.
pub fn capture_action(elapsed_frames: u64) -> (a: CaptureAction)
    ensures
        (a == CaptureAction::Capture) <==> elapsed_frames <= CAPTURE_LAST_FRAME,
        (a == CaptureAction::Idle) <==> elapsed_frames == CAPTURE_LAST_FRAME + 1,
        (a == CaptureAction::Finish) <==> elapsed_frames > CAPTURE_LAST_FRAME + 1,
{
    if elapsed_frames <= CAPTURE_LAST_FRAME {
        CaptureAction::Capture
    } else if elapsed_frames > CAPTURE_LAST_FRAME + 1 {
        CaptureAction::Finish
    } else {
        CaptureAction::Idle
    }
}

/// The decimal digits of `n`, most significant first, as ASCII bytes.
pub open spec fn spec_digits(n: nat) -> Seq<u8>
    decreases n,
{
    if n < 10 {
        seq![(48 + n) as u8]
    } else {
        spec_digits(n / 10).push((48 + n % 10) as u8)
    }
}

/// The capture file name for frame `n`: its decimal digits padded with
/// leading zeros to at least four places, followed by `.png`.
pub open spec fn spec_frame_file_name(n: nat) -> Seq<u8> {
    let digits = if n < 10 {
        seq![48u8, 48u8, 48u8] + spec_digits(n)
    } else if n < 100 {
        seq![48u8, 48u8] + spec_digits(n)
    } else if n < 1000 {
        seq![48u8] + spec_digits(n)
    } else {
        spec_digits(n)
    };
    digits + seq![46u8, 112u8, 110u8, 103u8]
}

/// Append the decimal digits of `n` to `out`, most significant first.
fn push_digits(n: u64, out: &mut Vec<u8>)
    ensures
        final(out)@ == old(out)@ + spec_digits(n as nat),
    decreases n,
{
    if n < 10 {
        out.push(48 + n as u8);
        assert(out@ =~= old(out)@ + spec_digits(n as nat));
    } else {
        push_digits(n / 10, out);
        out.push(48 + (n % 10) as u8);
        assert(out@ =~= old(out)@ + spec_digits(n as nat));
    }
}

/// Build the capture file name for frame `n`: the frame number zero-padded
/// to four digits, with a `.png` extension, as ASCII bytes.
pub fn frame_file_name(n: u64) -> (name: Vec<u8>)
    ensures
        name@ == spec_frame_file_name(n as nat),
{
    let mut out: Vec<u8> = Vec::new();
    if n < 10 {
        out.push(48);
        out.push(48);
        out.push(48);
    } else if n < 100 {
        out.push(48);
        out.push(48);
    } else if n < 1000 {
        out.push(48);
    }
    push_digits(n, &mut out);
    out.push(46);
    out.push(112);
    out.push(110);
    out.push(103);
    assert(out@ =~= spec_frame_file_name(n as nat));
    out
}

} // verus!

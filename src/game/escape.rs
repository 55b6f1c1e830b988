use vstd::prelude::*;

use crate::utils::{sgr_code, SGR};

verus! {

/// The decimal digits of `n` in ASCII, most significant first.
pub open spec fn decimal(n: nat) -> Seq<u8>
    decreases n,
{
    if n < 10 {
        seq![(48 + n) as u8]
    } else {
        decimal(n / 10) + seq![(48 + n % 10) as u8]
    }
}

/// The Control Sequence Introducer, ESC `[`.
pub open spec fn csi() -> Seq<u8> {
    seq![27u8, 91u8]
}

/// The codes of `attrs` in decimal, separated by `;`.
pub open spec fn joined_codes(attrs: Seq<SGR>) -> Seq<u8>
    decreases attrs.len(),
{
    if attrs.len() == 0 {
        Seq::empty()
    } else if attrs.len() == 1 {
        decimal(sgr_code(attrs[0]) as nat)
    } else {
        joined_codes(attrs.drop_last()) + seq![59u8] + decimal(sgr_code(attrs.last()) as nat)
    }
}

fn push_decimal(out: &mut Vec<u8>, n: usize)
    ensures
        final(out)@ == old(out)@ + decimal(n as nat),
    decreases n,
{
    if n >= 10 {
        push_decimal(out, n / 10);
    }
    out.push((48 + n % 10) as u8);
    proof {
        if n >= 10 {
            assert(final(out)@ =~= old(out)@ + decimal(n as nat));
        } else {
            assert(final(out)@ =~= old(out)@ + decimal(n as nat));
        }
    }
}

/// The sequence that moves the cursor to column `x`, row `y` (both from 1).
pub fn move_cursor_sequence(x: usize, y: usize) -> (r: Vec<u8>)
    ensures
        r@ == csi() + decimal(y as nat) + seq![59u8] + decimal(x as nat) + seq![72u8],
{
    let mut out: Vec<u8> = Vec::new();
    out.push(27);
    out.push(91);
    push_decimal(&mut out, y);
    out.push(59);
    push_decimal(&mut out, x);
    out.push(72);
    assert(out@ =~= csi() + decimal(y as nat) + seq![59u8] + decimal(x as nat) + seq![72u8]);
    out
}

/// The sequence that sets the attributes `sgr`, in order.
pub fn set_colors_sequence(sgr: &[SGR]) -> (r: Vec<u8>)
    ensures
        r@ == csi() + joined_codes(sgr@) + seq![109u8],
{
    let mut out: Vec<u8> = Vec::new();
    out.push(27);
    out.push(91);
    let mut i: usize = 0;
    while i < sgr.len()
        invariant
            0 <= i <= sgr@.len(),
            out@ == csi() + joined_codes(sgr@.take(i as int)),
        decreases sgr@.len() - i,
    {
        let ghost before = out@;
        if i > 0 {
            out.push(59);
        }
        push_decimal(&mut out, sgr[i].code() as usize);
        proof {
            let t = sgr@.take(i + 1);
            assert(t.drop_last() =~= sgr@.take(i as int));
            assert(t.last() == sgr@[i as int]);
            if i == 0 {
                assert(t.len() == 1);
                assert(out@ =~= csi() + joined_codes(t));
            } else {
                assert(out@ =~= csi() + joined_codes(t));
            }
        }
        i += 1;
    }
    assert(sgr@.take(sgr@.len() as int) =~= sgr@);
    out.push(109);
    assert(out@ =~= csi() + joined_codes(sgr@) + seq![109u8]);
    out
}

/// The sequence that hides the cursor.
pub fn hide_cursor_sequence() -> (r: Vec<u8>)
    ensures
        r@ == csi() + seq![63u8, 50u8, 53u8, 108u8],
{
    let r = vec![27u8, 91, 63, 50, 53, 108];
    assert(r@ =~= csi() + seq![63u8, 50u8, 53u8, 108u8]);
    r
}

/// The sequence that shows the cursor.
pub fn show_cursor_sequence() -> (r: Vec<u8>)
    ensures
        r@ == csi() + seq![63u8, 50u8, 53u8, 104u8],
{
    let r = vec![27u8, 91, 63, 50, 53, 104];
    assert(r@ =~= csi() + seq![63u8, 50u8, 53u8, 104u8]);
    r
}

/// The sequence that clears the screen.
pub fn clear_sequence() -> (r: Vec<u8>)
    ensures
        r@ == csi() + seq![50u8, 74u8],
{
    let r = vec![27u8, 91, 50, 74];
    assert(r@ =~= csi() + seq![50u8, 74u8]);
    r
}

/// The sequence that clears the scrollback.
pub fn clear_history_sequence() -> (r: Vec<u8>)
    ensures
        r@ == csi() + seq![51u8, 74u8],
{
    let r = vec![27u8, 91, 51, 74];
    assert(r@ =~= csi() + seq![51u8, 74u8]);
    r
}

} // verus!

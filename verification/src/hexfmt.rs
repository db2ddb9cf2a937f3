//! Building the textual trace lines: fixed-width upper-case hex rendering.
use vstd::prelude::*;
use vstd::string::StringExecFns;

verus! {

/// The upper-case hex digit of a nibble.
pub open spec fn hex_digit_spec(n: u8) -> char {
    if n == 0 {
        '0'
    } else if n == 1 {
        '1'
    } else if n == 2 {
        '2'
    } else if n == 3 {
        '3'
    } else if n == 4 {
        '4'
    } else if n == 5 {
        '5'
    } else if n == 6 {
        '6'
    } else if n == 7 {
        '7'
    } else if n == 8 {
        '8'
    } else if n == 9 {
        '9'
    } else if n == 10 {
        'A'
    } else if n == 11 {
        'B'
    } else if n == 12 {
        'C'
    } else if n == 13 {
        'D'
    } else if n == 14 {
        'E'
    } else {
        'F'
    }
}

/// A 16-bit word as four upper-case hex digits.
pub open spec fn hex4_spec(x: u16) -> Seq<char> {
    seq![
        hex_digit_spec(((x >> 12) & 0xF) as u8),
        hex_digit_spec(((x >> 8) & 0xF) as u8),
        hex_digit_spec(((x >> 4) & 0xF) as u8),
        hex_digit_spec((x & 0xF) as u8),
    ]
}

/// The published trace line: program counter and opcode in hex, then the
/// one-line description of what the instruction did.
pub open spec fn trace_line_spec(pc: u16, op: u16, desc: Seq<char>) -> Seq<char> {
    hex4_spec(pc) + ": "@ + hex4_spec(op) + " - "@ + desc
}

fn hex_digit_str(n: u8) -> (r: &'static str)
    requires
        n < 16,
    ensures
        r@ == seq![hex_digit_spec(n)],
{
    let r: &'static str = if n == 0 {
        "0"
    } else if n == 1 {
        "1"
    } else if n == 2 {
        "2"
    } else if n == 3 {
        "3"
    } else if n == 4 {
        "4"
    } else if n == 5 {
        "5"
    } else if n == 6 {
        "6"
    } else if n == 7 {
        "7"
    } else if n == 8 {
        "8"
    } else if n == 9 {
        "9"
    } else if n == 10 {
        "A"
    } else if n == 11 {
        "B"
    } else if n == 12 {
        "C"
    } else if n == 13 {
        "D"
    } else if n == 14 {
        "E"
    } else {
        "F"
    };
    proof {
        reveal_strlit("0");
        reveal_strlit("1");
        reveal_strlit("2");
        reveal_strlit("3");
        reveal_strlit("4");
        reveal_strlit("5");
        reveal_strlit("6");
        reveal_strlit("7");
        reveal_strlit("8");
        reveal_strlit("9");
        reveal_strlit("A");
        reveal_strlit("B");
        reveal_strlit("C");
        reveal_strlit("D");
        reveal_strlit("E");
        reveal_strlit("F");
        assert(r@ =~= seq![hex_digit_spec(n)]);
    }
    r
}

/// Appends the four hex digits of `x` to `s`.
fn push_hex4(s: &mut String, x: u16)
    ensures
        final(s)@ == old(s)@ + hex4_spec(x),
{
    proof {
        assert((x >> 12) & 0xF < 16 && (x >> 8) & 0xF < 16 && (x >> 4) & 0xF < 16 && x & 0xF
            < 16) by (bit_vector);
    }
    s.append(hex_digit_str(((x >> 12) & 0xF) as u8));
    s.append(hex_digit_str(((x >> 8) & 0xF) as u8));
    s.append(hex_digit_str(((x >> 4) & 0xF) as u8));
    s.append(hex_digit_str((x & 0xF) as u8));
    proof {
        assert(s@ =~= old(s)@ + hex4_spec(x));
    }
}

/// Renders one trace line, `PPPP: OOOO - description`.
pub fn trace_line(pc: u16, op: u16, desc: &str) -> (r: String)
    ensures
        r@ == trace_line_spec(pc, op, desc@),
{
    let mut s = String::new();
    push_hex4(&mut s, pc);
    s.append(": ");
    push_hex4(&mut s, op);
    s.append(" - ");
    s.append(desc);
    proof {
        assert(s@ =~= trace_line_spec(pc, op, desc@));
    }
    s
}

} // verus!

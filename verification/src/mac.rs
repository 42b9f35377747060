//! Link-layer (MAC) address text.
//!
//! A raw link-layer byte sequence becomes colon-separated lowercase hex
//! text, two digits per byte; an empty or all-zero sequence stands for
//! "no address" and yields nothing.
use vstd::prelude::*;
use vstd::string::StringExecFns;

verus! {

/// The lowercase hex digit of a value below sixteen.
pub open spec fn spec_hex_char(d: u8) -> char {
    if d == 0 {
        '0'
    } else if d == 1 {
        '1'
    } else if d == 2 {
        '2'
    } else if d == 3 {
        '3'
    } else if d == 4 {
        '4'
    } else if d == 5 {
        '5'
    } else if d == 6 {
        '6'
    } else if d == 7 {
        '7'
    } else if d == 8 {
        '8'
    } else if d == 9 {
        '9'
    } else if d == 10 {
        'a'
    } else if d == 11 {
        'b'
    } else if d == 12 {
        'c'
    } else if d == 13 {
        'd'
    } else if d == 14 {
        'e'
    } else {
        'f'
    }
}

/// Whether a character is one of the sixteen lowercase hex digits.
pub open spec fn is_lower_hex_digit(c: char) -> bool {
    exists|d: u8| d < 16 && c == #[trigger] spec_hex_char(d)
}

/// The two hex digits of one byte, high digit first.
pub open spec fn spec_byte_hex(b: u8) -> Seq<char> {
    seq![spec_hex_char(b / 16), spec_hex_char(b % 16)]
}

/// The colon-separated hex text of a byte sequence.
pub open spec fn spec_mac_text(bytes: Seq<u8>) -> Seq<char>
    decreases bytes.len(),
{
    if bytes.len() == 0 {
        Seq::empty()
    } else if bytes.len() == 1 {
        spec_byte_hex(bytes[0])
    } else {
        spec_mac_text(bytes.drop_last()) + seq![':'] + spec_byte_hex(bytes.last())
    }
}

/// Whether every byte of the sequence is zero.
pub open spec fn spec_all_zero(bytes: Seq<u8>) -> bool {
    forall|i: int| 0 <= i < bytes.len() ==> bytes[i] == 0
}

/// The shape of well-formed MAC text: groups of two lowercase hex digits
/// with a colon after every group but the last.
pub open spec fn mac_text_wf(cs: Seq<char>) -> bool {
    &&& cs.len() % 3 == 2
    &&& forall|i: int| 0 <= i < cs.len() && i % 3 == 2 ==> cs[i] == ':'
    &&& forall|i: int| 0 <= i < cs.len() && i % 3 != 2 ==> is_lower_hex_digit(#[trigger] cs[i])
}

/// Formatting any non-empty byte sequence yields well-formed MAC text of
/// length one less than three times the byte count, with the first colon
/// (when two or more bytes are present) at the third position.
pub proof fn lemma_mac_text_wf(bytes: Seq<u8>)
    requires
        bytes.len() >= 1,
    ensures
        mac_text_wf(spec_mac_text(bytes)),
        spec_mac_text(bytes).len() == 3 * bytes.len() - 1,
        bytes.len() >= 2 ==> spec_mac_text(bytes)[2] == ':',
    decreases bytes.len(),
{
    let cs = spec_mac_text(bytes);
    if bytes.len() == 1 {
        assert(cs == spec_byte_hex(bytes[0]));
        assert(bytes[0] / 16 < 16) by (nonlinear_arith);
        assert(bytes[0] % 16 < 16) by (nonlinear_arith);
        assert(is_lower_hex_digit(cs[0]));
        assert(is_lower_hex_digit(cs[1]));
    } else {
        let prev = spec_mac_text(bytes.drop_last());
        lemma_mac_text_wf(bytes.drop_last());
        let n = prev.len() as int;
        assert(n % 3 == 2);
        assert((n + 3) % 3 == 2) by (nonlinear_arith)
            requires
                n % 3 == 2 && n >= 0,
        ;
        assert((n + 1) % 3 == 0 && (n + 2) % 3 == 1) by (nonlinear_arith)
            requires
                n % 3 == 2 && n >= 0,
        ;
        let b = bytes.last();
        assert(b / 16 < 16) by (nonlinear_arith);
        assert(b % 16 < 16) by (nonlinear_arith);
        assert forall|i: int| 0 <= i < cs.len() && i % 3 == 2 implies cs[i] == ':' by {
            if i < n {
                assert(cs[i] == prev[i]);
            } else {
                assert(i == n);
            }
        }
        assert forall|i: int| 0 <= i < cs.len() && i % 3 != 2 implies is_lower_hex_digit(
            cs[i],
        ) by {
            if i < n {
                assert(cs[i] == prev[i]);
            } else if i == n + 1 {
                assert(cs[i] == spec_hex_char(b / 16));
            } else {
                assert(i == n + 2);
                assert(cs[i] == spec_hex_char(b % 16));
            }
        }
    }
}

/// The text of one lowercase hex digit.
fn hex_str(d: u8) -> (r: &'static str)
    requires
        d < 16,
    ensures
        r@ == seq![spec_hex_char(d)],
{
    proof {
        reveal_strlit("0");
        reveal_strlit("1");
        reveal_strlit("2");
        reveal_strlit("3");
        reveal_strlit("4");
        reveal_strlit("5");
        reveal_strlit("6");
        reveal_strlit("7");
        reveal_strlit("8");
        reveal_strlit("9");
        reveal_strlit("a");
        reveal_strlit("b");
        reveal_strlit("c");
        reveal_strlit("d");
        reveal_strlit("e");
        reveal_strlit("f");
    }
    let r: &'static str = match d {
        0 => "0",
        1 => "1",
        2 => "2",
        3 => "3",
        4 => "4",
        5 => "5",
        6 => "6",
        7 => "7",
        8 => "8",
        9 => "9",
        10 => "a",
        11 => "b",
        12 => "c",
        13 => "d",
        14 => "e",
        _ => "f",
    };
    proof {
        assert(r@ =~= seq![spec_hex_char(d)]);
    }
    r
}

/// Formats a link-layer byte sequence as colon-separated lowercase hex
/// text; an empty or all-zero sequence has no text.
pub fn format_mac(bytes: &[u8]) -> (r: Option<String>)
    ensures
        match r {
            Some(s) => bytes@.len() > 0 && !spec_all_zero(bytes@) && s@ == spec_mac_text(bytes@),
            None => bytes@.len() == 0 || spec_all_zero(bytes@),
        },
{
    let n = bytes.len();
    let mut nonzero = false;
    let mut i: usize = 0;
    while i < n
        invariant
            n == bytes@.len(),
            i <= n,
            nonzero <==> !spec_all_zero(bytes@.take(i as int)),
        decreases n - i,
    {
        if bytes[i] != 0 {
            nonzero = true;
        }
        proof {
            let t0 = bytes@.take(i as int);
            let t1 = bytes@.take(i + 1);
            if bytes@[i as int] != 0 {
                assert(t1[i as int] != 0);
            } else if nonzero {
                let j = choose|j: int| 0 <= j < t0.len() && t0[j] != 0;
                assert(t1[j] != 0);
            } else {
                assert forall|j: int| 0 <= j < t1.len() implies t1[j] == 0 by {
                    if j < i {
                        assert(t0[j] == 0);
                    }
                }
            }
        }
        i = i + 1;
    }
    proof {
        assert(bytes@.take(n as int) =~= bytes@);
    }
    if n == 0 || !nonzero {
        return None;
    }
    let mut s = String::new();
    let mut i: usize = 0;
    proof {
        reveal_strlit(":");
    }
    while i < n
        invariant
            n == bytes@.len(),
            i <= n,
            s@ == spec_mac_text(bytes@.take(i as int)),
            ":"@ == seq![':'],
        decreases n - i,
    {
        let b = bytes[i];
        proof {
            assert(b / 16 < 16) by (nonlinear_arith);
            assert(b % 16 < 16) by (nonlinear_arith);
            assert(bytes@.take(i + 1).drop_last() =~= bytes@.take(i as int));
            assert(bytes@.take(i + 1).last() == bytes@[i as int]);
        }
        if i > 0 {
            s.append(":");
        }
        s.append(hex_str(b / 16));
        s.append(hex_str(b % 16));
        proof {
            if i == 0 {
                assert(s@ =~= spec_mac_text(bytes@.take(1)));
            } else {
                assert(s@ =~= spec_mac_text(bytes@.take(i + 1)));
            }
        }
        i = i + 1;
    }
    proof {
        assert(bytes@.take(n as int) =~= bytes@);
    }
    Some(s)
}

} // verus!

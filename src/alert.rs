//! The field texts of a webhook alert: addresses and hashes in hex, the
//! shortened transaction link, and the detection time in seconds.
use vstd::prelude::*;
use crate::action::{decimal, decimal_string};
use crate::word::U256;

verus! {

/// The lower-case hex digit for `d < 16`.
pub open spec fn hex_digit(d: nat) -> char {
    if d < 10 {
        (48 + d) as char
    } else {
        (87 + d) as char
    }
}

/// Two hex digits per byte, high nibble first.
pub open spec fn hex_chars(s: Seq<u8>) -> Seq<char> {
    Seq::new(
        2 * s.len(),
        |k: int|
            if k % 2 == 0 {
                hex_digit(s[k / 2] as nat / 16)
            } else {
                hex_digit(s[k / 2] as nat % 16)
            },
    )
}

/// Bytes as `0x` followed by their hex digits.
pub open spec fn hex_text(s: Seq<u8>) -> Seq<char> {
    "0x"@ + hex_chars(s)
}

/// The link to a transaction, shown as its first four and last four bytes.
pub open spec fn hash_link_text(h: Seq<u8>) -> Seq<char> {
    "["@ + hex_text(h.subrange(0, 4)) + "..."@ + hex_chars(h.subrange(h.len() - 4, h.len() as int))
        + "]("@ + "https://sepolia.etherscan.io/tx/"@ + hex_text(h) + ")"@
}

/// A relative timestamp marker for a time in milliseconds, in whole seconds.
pub open spec fn detected_text(ms: u64) -> Seq<char> {
    "<t:"@ + decimal(ms as nat / 1000) + ":R>"@
}

fn hex_str(d: u8) -> (r: &'static str)
    requires
        d < 16,
    ensures
        r@ == seq![hex_digit(d as nat)],
{
    proof {
        reveal_strlit("0");
        reveal_strlit("1");
        reveal_strlit("2");
        reveal_strlit("3");
        reveal_strlit("4");
        reveal_strlit("5");
        reveal_strlit("6");
        reveal_strlit("7");
        reveal_strlit("8");
        reveal_strlit("9");
        reveal_strlit("a");
        reveal_strlit("b");
        reveal_strlit("c");
        reveal_strlit("d");
        reveal_strlit("e");
        reveal_strlit("f");
    }
    let r = if d == 0 {
        "0"
    } else if d == 1 {
        "1"
    } else if d == 2 {
        "2"
    } else if d == 3 {
        "3"
    } else if d == 4 {
        "4"
    } else if d == 5 {
        "5"
    } else if d == 6 {
        "6"
    } else if d == 7 {
        "7"
    } else if d == 8 {
        "8"
    } else if d == 9 {
        "9"
    } else if d == 10 {
        "a"
    } else if d == 11 {
        "b"
    } else if d == 12 {
        "c"
    } else if d == 13 {
        "d"
    } else if d == 14 {
        "e"
    } else {
        "f"
    };
    proof {
        assert(r@ =~= seq![hex_digit(d as nat)]);
    }
    r
}

/// Appends the hex digits of `b[from..to]`.
fn append_hex(out: &mut String, b: &[u8], from: usize, to: usize)
    requires
        from <= to <= b@.len(),
    ensures
        final(out)@ == old(out)@ + hex_chars(b@.subrange(from as int, to as int)),
{
    let ghost start = out@;
    let mut i: usize = from;
    while i < to
        invariant
            from <= i <= to <= b@.len(),
            out@ == start + hex_chars(b@.subrange(from as int, i as int)),
        decreases to - i,
    {
        out.append(hex_str(b[i] / 16));
        out.append(hex_str(b[i] % 16));
        i = i + 1;
        proof {
            assert(hex_chars(b@.subrange(from as int, i as int)) =~= hex_chars(
                b@.subrange(from as int, i - 1),
            ) + seq![hex_digit(b@[i - 1] as nat / 16), hex_digit(b@[i - 1] as nat % 16)]);
        }
    }
}

/// `b` as `0x` and hex digits, as addresses appear in an alert.
pub fn hex_string(b: &[u8]) -> (r: String)
    ensures
        r@ == hex_text(b@),
{
    proof {
        reveal_strlit("0x");
    }
    let mut out = String::from_str("0x");
    append_hex(&mut out, b, 0, b.len());
    proof {
        assert(b@.subrange(0, b@.len() as int) =~= b@);
    }
    out
}

/// The alert's transaction field: the shortened hash, linked to the explorer.
pub fn hash_link(tx_hash: &[u8]) -> (r: String)
    requires
        tx_hash@.len() >= 4,
    ensures
        r@ == hash_link_text(tx_hash@),
{
    let n = tx_hash.len();
    proof {
        reveal_strlit("[");
        reveal_strlit("0x");
    }
    let mut out = String::from_str("[");
    out.append("0x");
    append_hex(&mut out, tx_hash, 0, 4);
    out.append("...");
    append_hex(&mut out, tx_hash, n - 4, n);
    out.append("](");
    out.append("https://sepolia.etherscan.io/tx/");
    let full = hex_string(tx_hash);
    out.append(full.as_str());
    out.append(")");
    proof {
        assert(out@ =~= hash_link_text(tx_hash@));
    }
    out
}

/// The alert's detection field for a time in milliseconds.
pub fn detected_field(ms: u64) -> (r: String)
    ensures
        r@ == detected_text(ms),
{
    let mut out = String::from_str("<t:");
    let secs = decimal_string(U256::from_u128((ms / 1000) as u128));
    out.append(secs.as_str());
    out.append(":R>");
    proof {
        assert(out@ =~= detected_text(ms));
    }
    out
}

} // verus!

//! The dispatch record handed to an action sink, and the console sink.
use vstd::prelude::*;
use crate::decoder::{DecodedTx, addresses_view, decode_payload, decode_spec};
use crate::word::{Address, U256, div_rem_u64};
use vstd::arithmetic::div_mod::lemma_fundamental_div_mod_converse;

verus! {

/// A decoded transaction that qualifies for dispatch.
#[derive(Debug, Clone)]
pub struct TargetTransaction {
    pub tx_hash: Vec<u8>,
    pub from: Address,
    pub value: U256,
    pub method: String,
    pub amount_out_min: U256,
    pub path: Vec<Address>,
    pub to: Address,
    pub deadline: U256,
    /// Milliseconds since the Unix epoch when the payload was decoded.
    pub detected_at: u64,
}

impl TargetTransaction {
    /// The record for transaction `tx_hash` from `from`, carrying what the
    /// decoder found.
    pub fn from_decoded(tx_hash: Vec<u8>, from: Address, decoded: DecodedTx, detected_at: u64) -> (r:
        TargetTransaction)
        ensures
            r.tx_hash@ == tx_hash@,
            r.from == from,
            r.value == decoded.effective_value,
            r.method@ == decoded.method@,
            r.amount_out_min == decoded.amount_out_min,
            r.path@ == decoded.path@,
            r.to == decoded.to,
            r.deadline == decoded.deadline,
            r.detected_at == detected_at,
    {
        TargetTransaction {
            tx_hash,
            from,
            value: decoded.effective_value,
            method: decoded.method,
            amount_out_min: decoded.amount_out_min,
            path: decoded.path,
            to: decoded.to,
            deadline: decoded.deadline,
            detected_at,
        }
    }
}

/// The consume stage's work on one fetched transaction: decode its payload
/// against the observed value and build the record to dispatch.
pub fn prepare_dispatch(
    tx_hash: Vec<u8>,
    from: Address,
    input_data: &[u8],
    tx_value: U256,
    detected_at: u64,
) -> (r: TargetTransaction)
    ensures
        ({
            let d = decode_spec(input_data@, tx_value);
            &&& r.tx_hash@ == tx_hash@
            &&& r.from == from
            &&& r.value == d.effective_value
            &&& r.method@ == d.method
            &&& r.amount_out_min == d.amount_out_min
            &&& addresses_view(r.path@) == d.path
            &&& r.to.bytes@ == d.to
            &&& r.deadline == d.deadline
            &&& r.detected_at == detected_at
            &&& r.to.wf()
            &&& forall|i: int| 0 <= i < r.path@.len() ==> (#[trigger] r.path@[i]).wf()
        }),
{
    let d = decode_payload(input_data, tx_value);
    TargetTransaction::from_decoded(tx_hash, from, d, detected_at)
}

/// Wei in one ether.
pub const WEI_PER_ETH: u64 = 1_000_000_000_000_000_000;

/// The character of decimal digit `d`.
pub open spec fn digit_char(d: nat) -> char {
    (48 + d) as char
}

/// `n` written in decimal, without leading zeros.
pub open spec fn decimal(n: nat) -> Seq<char>
    decreases n,
{
    if n < 10 {
        seq![digit_char(n)]
    } else {
        decimal(n / 10).push(digit_char(n % 10))
    }
}

/// `f < 10000` written with exactly four digits.
pub open spec fn four_digits(f: nat) -> Seq<char> {
    seq![
        digit_char(f / 1000 % 10),
        digit_char(f / 100 % 10),
        digit_char(f / 10 % 10),
        digit_char(f % 10),
    ]
}

/// An amount of wei as ether: the whole part, a point, and four decimals
/// (truncated).
pub open spec fn eth_string(wei: nat) -> Seq<char> {
    decimal(wei / WEI_PER_ETH as nat) + seq!['.'] + four_digits(
        (wei % WEI_PER_ETH as nat) * 10000 / WEI_PER_ETH as nat,
    )
}

/// The digits `ds`, least significant first, as characters in reading order.
pub open spec fn digits_read(ds: Seq<u8>) -> Seq<char> {
    Seq::new(ds.len(), |i: int| digit_char(ds[ds.len() - 1 - i] as nat))
}

fn digit_str(d: u64) -> (r: &'static str)
    requires
        d < 10,
    ensures
        r@ == seq![digit_char(d as nat)],
{
    proof {
        reveal_strlit("0");
        reveal_strlit("1");
        reveal_strlit("2");
        reveal_strlit("3");
        reveal_strlit("4");
        reveal_strlit("5");
        reveal_strlit("6");
        reveal_strlit("7");
        reveal_strlit("8");
        reveal_strlit("9");
    }
    let r = if d == 0 {
        "0"
    } else if d == 1 {
        "1"
    } else if d == 2 {
        "2"
    } else if d == 3 {
        "3"
    } else if d == 4 {
        "4"
    } else if d == 5 {
        "5"
    } else if d == 6 {
        "6"
    } else if d == 7 {
        "7"
    } else if d == 8 {
        "8"
    } else {
        "9"
    };
    proof {
        assert(r@ =~= seq![digit_char(d as nat)]);
    }
    r
}

/// `v` in decimal.
pub fn decimal_string(v: U256) -> (r: String)
    ensures
        r@ == decimal(v.value()),
{
    let mut cur = v;
    let mut ds: Vec<u8> = Vec::new();
    while !(cur.hi == 0 && cur.lo < 10)
        invariant
            decimal(v.value()) == decimal(cur.value()) + digits_read(ds@),
            forall|i: int| 0 <= i < ds@.len() ==> ds@[i] < 10,
        decreases cur.value(),
    {
        let (q, r) = div_rem_u64(cur, 10);
        proof {
            lemma_fundamental_div_mod_converse(cur.value() as int, 10, q.value() as int, r as int);
            assert(cur.value() >= 10) by (nonlinear_arith)
                requires
                    !(cur.hi == 0 && cur.lo < 10),
                    cur.value() == cur.hi as nat * crate::word::half_base() + cur.lo as nat,
            ;
            assert(decimal(cur.value()) == decimal(q.value()).push(digit_char(r as nat)));
            let ghost before = ds@;
            assert(digits_read(before.push(r as u8)) =~= seq![digit_char(r as nat)] + digits_read(
                before,
            ));
        }
        ds.push(r as u8);
        cur = q;
        proof {
            assert(decimal(v.value()) =~= decimal(cur.value()) + digits_read(ds@));
        }
    }
    let mut s = String::from_str(digit_str(cur.lo as u64));
    let n = ds.len();
    let mut i: usize = n;
    while i > 0
        invariant
            i <= n == ds@.len(),
            forall|k: int| 0 <= k < ds@.len() ==> ds@[k] < 10,
            s@ == decimal(cur.value()) + digits_read(ds@).subrange(0, n - i),
        decreases i,
    {
        let d = digit_str(ds[i - 1] as u64);
        let ghost before = s@;
        s.append(d);
        i = i - 1;
        proof {
            assert(digits_read(ds@).subrange(0, n - i) =~= digits_read(ds@).subrange(0, n - i - 1)
                + seq![digit_char(ds@[i as int] as nat)]);
            assert(s@ =~= decimal(cur.value()) + digits_read(ds@).subrange(0, n - i));
        }
    }
    proof {
        assert(digits_read(ds@).subrange(0, n as int) =~= digits_read(ds@));
    }
    s
}

/// An amount of wei as ether with four decimals, such as `10.2500`.
pub fn format_wei_to_eth(wei: U256) -> (r: String)
    ensures
        r@ == eth_string(wei.value()),
{
    let (whole, rem) = div_rem_u64(wei, WEI_PER_ETH);
    proof {
        lemma_fundamental_div_mod_converse(
            wei.value() as int,
            WEI_PER_ETH as int,
            whole.value() as int,
            rem as int,
        );
    }
    let frac: u64 = ((rem as u128 * 10000) / WEI_PER_ETH as u128) as u64;
    let mut s = decimal_string(whole);
    proof {
        reveal_strlit(".");
    }
    s.append(".");
    s.append(digit_str(frac / 1000 % 10));
    s.append(digit_str(frac / 100 % 10));
    s.append(digit_str(frac / 10 % 10));
    s.append(digit_str(frac % 10));
    proof {
        assert(s@ =~= eth_string(wei.value()));
    }
    s
}

/// The console sink: writes each record to the log.
pub struct ConsoleLogger;

impl ConsoleLogger {
    pub fn new() -> (r: Self) {
        ConsoleLogger
    }
}

} // verus!

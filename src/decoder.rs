//! Selector-driven decoding of router calldata. Decoding is total: any
//! payload that no rule accepts comes back as the zeroed "Unknown" record.
use vstd::prelude::*;
use crate::word::{
    Address, U256, be_nat, copy_range, max_nat, read_word, word_at,
};

verus! {

pub const SWAP_EXACT_ETH_FOR_TOKENS: u32 = 0x7ff36ab5;

pub const SWAP_EXACT_TOKENS_FOR_ETH: u32 = 0x18cbafe5;

pub const SWAP_EXACT_TOKENS_FOR_TOKENS: u32 = 0x38ed1739;

pub const SWAP_ETH_FOR_EXACT_TOKENS: u32 = 0xfb3bdb41;

pub const SWAP_TOKENS_FOR_EXACT_TOKENS: u32 = 0x8803dbee;

pub const SWAP_TOKENS_FOR_EXACT_ETH: u32 = 0x4a25d94a;

pub const EXACT_INPUT_SINGLE: u32 = 0x414bf389;

pub const EXACT_INPUT: u32 = 0xc04b8d59;

pub const MULTICALL_V3: u32 = 0x5ae401dc;

/// Known, but its argument layout is not: payloads under it decode as "Unknown".
pub const EXECUTE_V3: u32 = 0x24856229;

pub const AGGREGATOR_SWAP: u32 = 0x12aa3caf;

/// Known, but its argument layout is not: payloads under it decode as "Unknown".
pub const UNISWAP_V3_SWAP_TO: u32 = 0xbc651e96;

/// The selectors of the two router families that the watcher knows.
pub open spec fn is_known_selector(sel: nat) -> bool {
    sel == SWAP_EXACT_ETH_FOR_TOKENS as nat || sel == SWAP_EXACT_TOKENS_FOR_ETH as nat || sel
        == SWAP_EXACT_TOKENS_FOR_TOKENS as nat || sel == SWAP_ETH_FOR_EXACT_TOKENS as nat || sel
        == SWAP_TOKENS_FOR_EXACT_TOKENS as nat || sel == SWAP_TOKENS_FOR_EXACT_ETH as nat || sel
        == EXACT_INPUT_SINGLE as nat || sel == EXACT_INPUT as nat || sel == MULTICALL_V3 as nat
        || sel == EXECUTE_V3 as nat || sel == AGGREGATOR_SWAP as nat || sel
        == UNISWAP_V3_SWAP_TO as nat
}

/// A decoded transaction, normalised.
#[derive(Debug, Clone, PartialEq)]
pub struct DecodedTx {
    pub amount_out_min: U256,
    pub path: Vec<Address>,
    pub to: Address,
    pub deadline: U256,
    pub effective_value: U256,
    pub method: String,
}

/// What a `DecodedTx` holds, as plain values.
pub struct DecodedView {
    pub amount_out_min: U256,
    pub path: Seq<Seq<u8>>,
    pub to: Seq<u8>,
    pub deadline: U256,
    pub effective_value: U256,
    pub method: Seq<char>,
}

pub open spec fn addresses_view(v: Seq<Address>) -> Seq<Seq<u8>> {
    v.map_values(|a: Address| a.bytes@)
}

impl DecodedTx {
    /// Every address in the record is 20 bytes long.
    pub open spec fn wf(&self) -> bool {
        &&& self.to.wf()
        &&& forall|i: int| 0 <= i < self.path@.len() ==> (#[trigger] self.path@[i]).wf()
    }

    pub open spec fn view(&self) -> DecodedView {
        DecodedView {
            amount_out_min: self.amount_out_min,
            path: addresses_view(self.path@),
            to: self.to.bytes@,
            deadline: self.deadline,
            effective_value: self.effective_value,
            method: self.method@,
        }
    }
}

pub open spec fn zero_word() -> U256 {
    U256 { hi: 0, lo: 0 }
}

pub open spec fn zero_address() -> Seq<u8> {
    Seq::new(20, |i: int| 0u8)
}

/// The record every fallback returns: all fields zero or empty, the observed
/// value passed through.
pub open spec fn default_record(method: Seq<char>, value: U256) -> DecodedView {
    DecodedView {
        amount_out_min: zero_word(),
        path: Seq::empty(),
        to: zero_address(),
        deadline: zero_word(),
        effective_value: value,
        method,
    }
}

/// The first four bytes as a big-endian number.
pub open spec fn selector_of(s: Seq<u8>) -> nat {
    be_nat(s.subrange(0, 4))
}

/// Where the `k`-th head word of the arguments starts.
pub open spec fn head(k: int) -> int {
    4 + 32 * k
}

/// The arguments hold at least `k` head words.
pub open spec fn has_words(s: Seq<u8>, k: int) -> bool {
    s.len() >= head(k)
}

/// The `n` bytes at `off` are zero.
pub open spec fn zero_prefix(s: Seq<u8>, off: int, n: int) -> bool {
    forall|i: int| off <= i < off + n ==> s[i] == 0
}

/// The word at `off` is a well-formed address: its top 12 bytes are zero.
pub open spec fn addr_ok(s: Seq<u8>, off: int) -> bool {
    zero_prefix(s, off, 12)
}

pub open spec fn addr_at(s: Seq<u8>, off: int) -> Seq<u8> {
    s.subrange(off + 12, off + 32)
}

/// A word that stands for a length within `s`.
pub open spec fn small(w: U256, s: Seq<u8>) -> bool {
    w.hi == 0 && w.lo <= s.len()
}

/// The word at `off` holds the number `v`.
pub open spec fn word_is(s: Seq<u8>, off: int, v: u128) -> bool {
    word_at(s, off) == U256 { hi: 0, lo: v }
}

/// The tail of an `address[]` in canonical form: its length word at `t`, then
/// that many address words, which end the payload.
pub open spec fn addr_array_ok(s: Seq<u8>, t: int) -> bool {
    let n = word_at(s, t);
    t + 32 <= s.len() && small(n, s) && s.len() == t + 32 + 32 * n.lo
        && forall|j: int| 0 <= j < n.lo ==> #[trigger] elem_ok(s, t, j)
}

/// Element `j` of an address array whose length word stands at `t`.
pub open spec fn elem_ok(s: Seq<u8>, t: int, j: int) -> bool {
    addr_ok(s, t + 32 + 32 * j)
}

pub open spec fn addr_array(s: Seq<u8>, t: int) -> Seq<Seq<u8>> {
    Seq::new(word_at(s, t).lo as nat, |j: int| addr_at(s, t + 32 + 32 * j))
}

/// `n` rounded up to whole words.
pub open spec fn padded(n: int) -> int {
    (n + 31) / 32 * 32
}

/// `swapExactETHForTokens(amountOutMin, path, to, deadline)`: four head
/// words, the path's offset pointing just past them.
pub open spec fn eth_for_tokens_ok(s: Seq<u8>) -> bool {
    has_words(s, 4) && word_is(s, head(1), 0x80) && addr_array_ok(s, head(4)) && addr_ok(s, head(2))
}

/// `swapExactTokensFor{ETH,Tokens}(amountIn, amountOutMin, path, to, deadline)`,
/// and the exact-output `swapTokensForExact{Tokens,ETH}(amountOut, amountInMax,
/// path, to, deadline)` with the same layout.
pub open spec fn tokens_for_x_ok(s: Seq<u8>) -> bool {
    has_words(s, 5) && word_is(s, head(2), 0xa0) && addr_array_ok(s, head(5)) && addr_ok(s, head(3))
}

/// `exactInputSingle((tokenIn, tokenOut, fee, recipient, deadline, amountIn,
/// amountOutMinimum, sqrtPriceLimitX96))`: a static tuple of eight words.
pub open spec fn exact_input_single_ok(s: Seq<u8>) -> bool {
    s.len() == head(8) && addr_ok(s, head(0)) && addr_ok(s, head(1)) && zero_prefix(s, head(2), 29)
        && addr_ok(s, head(3)) && zero_prefix(s, head(7), 12)
}

/// The word at `off` holds the number `v`.
pub open spec fn word_is_int(s: Seq<u8>, off: int, v: int) -> bool {
    word_at(s, off).hi == 0 && word_at(s, off).lo as int == v
}

/// A `bytes` value in canonical form at `at`: its length word, then the
/// bytes, zero-padded to whole words.
pub open spec fn bytes_ok(s: Seq<u8>, at: int) -> bool {
    let n = word_at(s, at).lo as int;
    at + 32 <= s.len() && small(word_at(s, at), s) && at + 32 + padded(n) <= s.len() && zero_prefix(
        s,
        at + 32 + n,
        padded(n) - n,
    )
}

/// Where the `bytes` value at `at` ends.
pub open spec fn bytes_end(s: Seq<u8>, at: int) -> int {
    at + 32 + padded(word_at(s, at).lo as int)
}

/// Elements `i..n` of a canonical `bytes[]` whose offset words start at
/// `base`: element `i` starts `pos` bytes past `base`, each next one right
/// after it, and the last one ends the payload.
pub open spec fn bytes_elems_ok(s: Seq<u8>, base: int, n: int, i: int, pos: int) -> bool
    decreases n - i,
{
    if i >= n {
        base + pos == s.len()
    } else {
        word_is_int(s, base + 32 * i, pos) && bytes_ok(s, base + pos) && bytes_elems_ok(
            s,
            base,
            n,
            i + 1,
            bytes_end(s, base + pos) - base,
        )
    }
}

/// `multicall(deadline, bytes[] data)`: the inner calls are framed, not
/// decoded.
pub open spec fn multicall_ok(s: Seq<u8>) -> bool {
    let n = word_at(s, head(2)).lo as int;
    has_words(s, 3) && word_is(s, head(1), 0x40) && small(word_at(s, head(2)), s) && head(3) + 32
        * n <= s.len() && bytes_elems_ok(s, head(3), n, 0, 32 * n)
}

/// The aggregator's `swap(executor, (srcToken, dstToken, srcReceiver,
/// dstReceiver, amount, minReturnAmount, flags), bytes permit, bytes data)`:
/// ten head words (the description tuple is static, inline), then the two
/// `bytes` tails.
pub open spec fn aggregator_swap_ok(s: Seq<u8>) -> bool {
    let data_at = bytes_end(s, head(10));
    has_words(s, 11) && addr_ok(s, head(0)) && addr_ok(s, head(1)) && addr_ok(s, head(2))
        && addr_ok(s, head(3)) && addr_ok(s, head(4)) && word_is(s, head(8), 0x140) && bytes_ok(
        s,
        head(10),
    ) && word_is_int(s, head(9), data_at - 4) && bytes_ok(s, data_at) && bytes_end(s, data_at)
        == s.len()
}

/// `exactInput((path, recipient, deadline, amountIn, amountOutMinimum))`: the
/// tuple's offset, its five head words, then the path's length and bytes,
/// zero-padded to a whole word.
pub open spec fn exact_input_ok(s: Seq<u8>) -> bool {
    let n = word_at(s, head(6)).lo as int;
    has_words(s, 7) && word_is(s, head(0), 0x20) && word_is(s, head(1), 0xa0) && small(
        word_at(s, head(6)),
        s,
    ) && s.len() == head(7) + padded(n) && zero_prefix(s, head(7) + n, padded(n) - n) && addr_ok(
        s,
        head(2),
    )
}

pub open spec fn decoded(
    amount_out_min: U256,
    path: Seq<Seq<u8>>,
    to: Seq<u8>,
    deadline: U256,
    amount_in: U256,
    value: U256,
    method: Seq<char>,
) -> DecodedView {
    DecodedView {
        amount_out_min,
        path,
        to,
        deadline,
        effective_value: if value.value() < amount_in.value() {
            amount_in
        } else {
            value
        },
        method,
    }
}

/// The whole decode table, as a function of the payload and observed value.
pub open spec fn decode_spec(s: Seq<u8>, value: U256) -> DecodedView {
    if s.len() == 0 {
        default_record("Native Transfer"@, value)
    } else if s.len() < 4 {
        default_record("Unknown"@, value)
    } else {
        let sel = selector_of(s);
        if sel == SWAP_EXACT_ETH_FOR_TOKENS as nat && eth_for_tokens_ok(s) {
            decoded(
                word_at(s, head(0)),
                addr_array(s, head(4)),
                addr_at(s, head(2)),
                word_at(s, head(3)),
                zero_word(),
                value,
                "swapExactETHForTokens"@,
            )
        } else if sel == SWAP_ETH_FOR_EXACT_TOKENS as nat && eth_for_tokens_ok(s) {
            decoded(
                word_at(s, head(0)),
                addr_array(s, head(4)),
                addr_at(s, head(2)),
                word_at(s, head(3)),
                zero_word(),
                value,
                "swapETHForExactTokens"@,
            )
        } else if sel == SWAP_EXACT_TOKENS_FOR_ETH as nat && tokens_for_x_ok(s) {
            decoded(
                word_at(s, head(1)),
                addr_array(s, head(5)),
                addr_at(s, head(3)),
                word_at(s, head(4)),
                word_at(s, head(0)),
                value,
                "swapExactTokensForETH"@,
            )
        } else if sel == SWAP_EXACT_TOKENS_FOR_TOKENS as nat && tokens_for_x_ok(s) {
            decoded(
                word_at(s, head(1)),
                addr_array(s, head(5)),
                addr_at(s, head(3)),
                word_at(s, head(4)),
                word_at(s, head(0)),
                value,
                "swapExactTokensForTokens"@,
            )
        } else if sel == SWAP_TOKENS_FOR_EXACT_TOKENS as nat && tokens_for_x_ok(s) {
            decoded(
                word_at(s, head(0)),
                addr_array(s, head(5)),
                addr_at(s, head(3)),
                word_at(s, head(4)),
                word_at(s, head(1)),
                value,
                "swapTokensForExactTokens"@,
            )
        } else if sel == SWAP_TOKENS_FOR_EXACT_ETH as nat && tokens_for_x_ok(s) {
            decoded(
                word_at(s, head(0)),
                addr_array(s, head(5)),
                addr_at(s, head(3)),
                word_at(s, head(4)),
                word_at(s, head(1)),
                value,
                "swapTokensForExactETH"@,
            )
        } else if sel == EXACT_INPUT_SINGLE as nat && exact_input_single_ok(s) {
            decoded(
                word_at(s, head(6)),
                seq![addr_at(s, head(0)), addr_at(s, head(1))],
                addr_at(s, head(3)),
                word_at(s, head(4)),
                word_at(s, head(5)),
                value,
                "exactInputSingle"@,
            )
        } else if sel == EXACT_INPUT as nat && exact_input_ok(s) {
            decoded(
                word_at(s, head(5)),
                Seq::empty(),
                addr_at(s, head(2)),
                word_at(s, head(3)),
                word_at(s, head(4)),
                value,
                "exactInput"@,
            )
        } else if sel == MULTICALL_V3 as nat && multicall_ok(s) {
            decoded(
                zero_word(),
                Seq::empty(),
                zero_address(),
                word_at(s, head(0)),
                zero_word(),
                value,
                "multicall"@,
            )
        } else if sel == AGGREGATOR_SWAP as nat && aggregator_swap_ok(s) {
            decoded(
                word_at(s, head(6)),
                seq![addr_at(s, head(1)), addr_at(s, head(2))],
                addr_at(s, head(4)),
                zero_word(),
                word_at(s, head(5)),
                value,
                "aggregatorSwap"@,
            )
        } else {
            default_record("Unknown"@, value)
        }
    }
}

/// Reads the selector: the first four bytes, big-endian.
pub fn read_selector(b: &[u8]) -> (r: u32)
    requires
        b@.len() >= 4,
    ensures
        r as nat == selector_of(b@),
{
    proof {
        let s = b@.subrange(0, 4);
        reveal_with_fuel(be_nat, 5);
        assert(s.drop_last() =~= b@.subrange(0, 3));
        assert(s.drop_last().drop_last() =~= b@.subrange(0, 2));
        assert(s.drop_last().drop_last().drop_last() =~= b@.subrange(0, 1));
        assert(s.drop_last().drop_last().drop_last().drop_last() =~= b@.subrange(0, 0));
    }
    ((b[0] as u32 * 256 + b[1] as u32) * 256 + b[2] as u32) * 256 + b[3] as u32
}

/// Tests that the `n` bytes at `off` are zero.
fn check_zero(b: &[u8], off: usize, n: usize) -> (r: bool)
    requires
        off + n <= b@.len(),
    ensures
        r == zero_prefix(b@, off as int, n as int),
{
    let _len = b.len();
    let end: usize = off + n;
    let mut i: usize = off;
    while i < end
        invariant
            end == off + n,
            off <= i <= off + n <= b@.len(),
            forall|k: int| off <= k < i ==> b@[k] == 0,
        decreases off + n - i,
    {
        if b[i] != 0 {
            return false;
        }
        i = i + 1;
    }
    true
}

/// Reads the address word at `off`, if its top 12 bytes are zero.
fn read_address(b: &[u8], off: usize) -> (r: Option<Address>)
    requires
        off + 32 <= b@.len(),
    ensures
        r is Some == addr_ok(b@, off as int),
        r matches Some(a) ==> a.bytes@ == addr_at(b@, off as int),
{
    let _len = b.len();
    if check_zero(b, off, 12) {
        Some(Address { bytes: copy_range(b, off + 12, off + 32) })
    } else {
        None
    }
}

/// Tests that the word at `off` holds the number `v`.
fn check_word(b: &[u8], off: usize, v: u128) -> (r: bool)
    requires
        off + 32 <= b@.len(),
    ensures
        r == word_is(b@, off as int, v),
{
    let w = read_word(b, off);
    w.hi == 0 && w.lo == v
}

/// Reads the `address[]` whose length word stands at `t` and which ends the
/// payload.
fn read_address_array(b: &[u8], t: usize) -> (r: Option<Vec<Address>>)
    requires
        t + 32 <= b@.len(),
    ensures
        r is Some == addr_array_ok(b@, t as int),
        r matches Some(v) ==> addresses_view(v@) == addr_array(b@, t as int),
{
    let len = b.len();
    let n = read_word(b, t);
    if !(n.hi == 0 && n.lo <= len as u128) {
        return None;
    }
    if t as u128 + 32 + 32 * n.lo != len as u128 {
        return None;
    }
    let count: usize = n.lo as usize;
    let ghost s = b@;
    let mut v: Vec<Address> = Vec::new();
    let mut j: usize = 0;
    while j < count
        invariant
            j <= count,
            count == n.lo,
            n == word_at(s, t as int),
            s == b@,
            len == s.len(),
            t + 32 + 32 * count == s.len(),
            forall|i: int| 0 <= i < j ==> elem_ok(s, t as int, i),
            addresses_view(v@) =~= Seq::new(j as nat, |i: int| addr_at(s, t + 32 + 32 * i)),
        decreases count - j,
    {
        let at: usize = t + 32 + 32 * j;
        match read_address(b, at) {
            Some(a) => {
                proof {
                    assert(elem_ok(s, t as int, j as int));
                }
                let ghost before = v@;
                let ghost bytes = a.bytes@;
                v.push(a);
                proof {
                    assert(addresses_view(v@) =~= addresses_view(before).push(bytes));
                }
                j = j + 1;
                proof {
                    assert(addresses_view(v@) =~= Seq::new(
                        j as nat,
                        |i: int| addr_at(s, t + 32 + 32 * i),
                    ));
                }
            },
            None => {
                proof {
                    assert(!elem_ok(s, t as int, j as int));
                }
                return None;
            },
        }
    }
    Some(v)
}

/// The observed value raised to the declared input amount, if larger.
fn effective(value: U256, amount_in: U256) -> (r: U256)
    ensures
        r == (if value.value() < amount_in.value() { amount_in } else { value }),
        r.value() == max_nat(amount_in.value(), value.value()),
{
    value.max(&amount_in)
}

/// `swapExactETHForTokens` and `swapETHForExactTokens`, which share a layout
/// and declare no input amount.
fn decode_eth_for_x(b: &[u8], value: U256, method: &str) -> (r: Option<DecodedTx>)
    requires
        b@.len() >= 4,
    ensures
        r is Some == eth_for_tokens_ok(b@),
        r matches Some(d) ==> d@ == decoded(
            word_at(b@, head(0)),
            addr_array(b@, head(4)),
            addr_at(b@, head(2)),
            word_at(b@, head(3)),
            zero_word(),
            value,
            method@,
        ),
{
    if b.len() < 164 || !check_word(b, 36, 0x80) {
        return None;
    }
    let path = match read_address_array(b, 132) {
        Some(p) => p,
        None => return None,
    };
    let to = match read_address(b, 68) {
        Some(a) => a,
        None => return None,
    };
    Some(
        DecodedTx {
            amount_out_min: read_word(b, 4),
            path,
            to,
            deadline: read_word(b, 100),
            effective_value: effective(value, U256::zero()),
            method: String::from_str(method),
        },
    )
}

/// The four token-input V2 swaps, which share a layout. With
/// `exact_output` the first word is the exact amount out and the second the
/// most that may go in; otherwise the first is the amount in and the second
/// the least that must come out.
fn decode_tokens_for_x(b: &[u8], value: U256, method: &str, exact_output: bool) -> (r: Option<
    DecodedTx,
>)
    requires
        b@.len() >= 4,
    ensures
        r is Some == tokens_for_x_ok(b@),
        r matches Some(d) ==> d@ == decoded(
            word_at(b@, if exact_output { head(0) } else { head(1) }),
            addr_array(b@, head(5)),
            addr_at(b@, head(3)),
            word_at(b@, head(4)),
            word_at(b@, if exact_output { head(1) } else { head(0) }),
            value,
            method@,
        ),
{
    if b.len() < 196 || !check_word(b, 68, 0xa0) {
        return None;
    }
    let path = match read_address_array(b, 164) {
        Some(p) => p,
        None => return None,
    };
    let to = match read_address(b, 100) {
        Some(a) => a,
        None => return None,
    };
    Some(
        DecodedTx {
            amount_out_min: read_word(b, if exact_output { 4 } else { 36 }),
            path,
            to,
            deadline: read_word(b, 132),
            effective_value: effective(value, read_word(b, if exact_output { 36 } else { 4 })),
            method: String::from_str(method),
        },
    )
}

/// `exactInputSingle`: the path is the pair of tokens.
fn decode_exact_input_single(b: &[u8], value: U256) -> (r: Option<DecodedTx>)
    requires
        b@.len() >= 4,
    ensures
        r is Some == exact_input_single_ok(b@),
        r matches Some(d) ==> d@ == decoded(
            word_at(b@, head(6)),
            seq![addr_at(b@, head(0)), addr_at(b@, head(1))],
            addr_at(b@, head(3)),
            word_at(b@, head(4)),
            word_at(b@, head(5)),
            value,
            "exactInputSingle"@,
        ),
{
    if b.len() != 260 {
        return None;
    }
    let token_in = match read_address(b, 4) {
        Some(a) => a,
        None => return None,
    };
    let token_out = match read_address(b, 36) {
        Some(a) => a,
        None => return None,
    };
    if !check_zero(b, 68, 29) {
        return None;
    }
    let recipient = match read_address(b, 100) {
        Some(a) => a,
        None => return None,
    };
    if !check_zero(b, 228, 12) {
        return None;
    }
    let ghost (p0, p1) = (token_in.bytes@, token_out.bytes@);
    let mut path: Vec<Address> = Vec::new();
    path.push(token_in);
    path.push(token_out);
    proof {
        assert(addresses_view(path@) =~= seq![p0, p1]);
    }
    Some(
        DecodedTx {
            amount_out_min: read_word(b, 196),
            path,
            to: recipient,
            deadline: read_word(b, 132),
            effective_value: effective(value, read_word(b, 164)),
            method: String::from_str("exactInputSingle"),
        },
    )
}

/// `exactInput`: the encoded multi-hop path is checked for its framing and
/// not split into addresses.
fn decode_exact_input(b: &[u8], value: U256) -> (r: Option<DecodedTx>)
    requires
        b@.len() >= 4,
    ensures
        r is Some == exact_input_ok(b@),
        r matches Some(d) ==> d@ == decoded(
            word_at(b@, head(5)),
            Seq::empty(),
            addr_at(b@, head(2)),
            word_at(b@, head(3)),
            word_at(b@, head(4)),
            value,
            "exactInput"@,
        ),
{
    let len = b.len();
    if len < 228 || !check_word(b, 4, 0x20) || !check_word(b, 36, 0xa0) {
        return None;
    }
    let n = read_word(b, 196);
    if !(n.hi == 0 && n.lo <= len as u128) {
        return None;
    }
    let padded_len: u128 = (n.lo + 31) / 32 * 32;
    if 228 + padded_len != len as u128 {
        return None;
    }
    if !check_zero(b, 228 + n.lo as usize, (padded_len - n.lo) as usize) {
        return None;
    }
    let recipient = match read_address(b, 68) {
        Some(a) => a,
        None => return None,
    };
    let path: Vec<Address> = Vec::new();
    proof {
        assert(addresses_view(path@) =~= Seq::empty());
    }
    Some(
        DecodedTx {
            amount_out_min: read_word(b, 164),
            path,
            to: recipient,
            deadline: read_word(b, 100),
            effective_value: effective(value, read_word(b, 132)),
            method: String::from_str("exactInput"),
        },
    )
}

/// Where the canonical `bytes` value at `at` ends, if there is one.
fn bytes_end_of(b: &[u8], at: usize) -> (r: Option<usize>)
    requires
        at <= b@.len(),
    ensures
        r is Some == bytes_ok(b@, at as int),
        r matches Some(e) ==> e == bytes_end(b@, at as int) && e <= b@.len(),
{
    let len = b.len();
    if len < 32 || at > len - 32 {
        return None;
    }
    let n = read_word(b, at);
    if !(n.hi == 0 && n.lo <= len as u128) {
        return None;
    }
    let padded_len: u128 = (n.lo + 31) / 32 * 32;
    if at as u128 + 32 + padded_len > len as u128 {
        return None;
    }
    if !check_zero(b, at + 32 + n.lo as usize, (padded_len - n.lo) as usize) {
        return None;
    }
    Some(at + 32 + padded_len as usize)
}

/// `multicall`: the deadline, with every inner call's framing checked.
fn decode_multicall(b: &[u8], value: U256) -> (r: Option<DecodedTx>)
    requires
        b@.len() >= 4,
    ensures
        r is Some == multicall_ok(b@),
        r matches Some(d) ==> d@ == decoded(
            zero_word(),
            Seq::empty(),
            zero_address(),
            word_at(b@, head(0)),
            zero_word(),
            value,
            "multicall"@,
        ),
{
    let len = b.len();
    if len < 100 || !check_word(b, 36, 0x40) {
        return None;
    }
    let n = read_word(b, 68);
    if !(n.hi == 0 && n.lo <= len as u128 && 100 + 32 * n.lo <= len as u128) {
        return None;
    }
    let count: usize = n.lo as usize;
    let base: usize = 100;
    let ghost s = b@;
    let mut pos: usize = 32 * count;
    let mut i: usize = 0;
    while i < count
        invariant
            s == b@,
            len == s.len(),
            count == word_at(s, head(2)).lo,
            base == head(3),
            base + 32 * count <= len,
            i <= count,
            base + pos <= len,
            bytes_elems_ok(s, base as int, count as int, 0, 32 * count) == bytes_elems_ok(
                s,
                base as int,
                count as int,
                i as int,
                pos as int,
            ),
        decreases count - i,
    {
        let at_offset: usize = base + 32 * i;
        if !check_word(b, at_offset, pos as u128) {
            return None;
        }
        let end = match bytes_end_of(b, base + pos) {
            Some(e) => e,
            None => return None,
        };
        pos = end - base;
        i = i + 1;
    }
    if base + pos != len {
        return None;
    }
    let path: Vec<Address> = Vec::new();
    proof {
        assert(addresses_view(path@) =~= Seq::empty());
    }
    Some(
        DecodedTx {
            amount_out_min: U256::zero(),
            path,
            to: Address::zero(),
            deadline: read_word(b, 4),
            effective_value: effective(value, U256::zero()),
            method: String::from_str("multicall"),
        },
    )
}

/// The aggregator's `swap`: the path is the token pair of its description.
fn decode_aggregator_swap(b: &[u8], value: U256) -> (r: Option<DecodedTx>)
    requires
        b@.len() >= 4,
    ensures
        r is Some == aggregator_swap_ok(b@),
        r matches Some(d) ==> d@ == decoded(
            word_at(b@, head(6)),
            seq![addr_at(b@, head(1)), addr_at(b@, head(2))],
            addr_at(b@, head(4)),
            zero_word(),
            word_at(b@, head(5)),
            value,
            "aggregatorSwap"@,
        ),
{
    let len = b.len();
    if len < 356 {
        return None;
    }
    if read_address(b, 4).is_none() || read_address(b, 100).is_none() {
        return None;
    }
    let src = match read_address(b, 36) {
        Some(a) => a,
        None => return None,
    };
    let dst = match read_address(b, 68) {
        Some(a) => a,
        None => return None,
    };
    let receiver = match read_address(b, 132) {
        Some(a) => a,
        None => return None,
    };
    if !check_word(b, 260, 0x140) {
        return None;
    }
    let data_at = match bytes_end_of(b, 324) {
        Some(e) => e,
        None => return None,
    };
    if !check_word(b, 292, (data_at - 4) as u128) {
        return None;
    }
    match bytes_end_of(b, data_at) {
        Some(e) => {
            if e != len {
                return None;
            }
        },
        None => return None,
    }
    let ghost (p0, p1) = (src.bytes@, dst.bytes@);
    let mut path: Vec<Address> = Vec::new();
    path.push(src);
    path.push(dst);
    proof {
        assert(addresses_view(path@) =~= seq![p0, p1]);
    }
    Some(
        DecodedTx {
            amount_out_min: read_word(b, 196),
            path,
            to: receiver,
            deadline: U256::zero(),
            effective_value: effective(value, read_word(b, 164)),
            method: String::from_str("aggregatorSwap"),
        },
    )
}

/// The zeroed record that carries only the observed value and a tag.
fn default_tx(method: &str, value: U256) -> (r: DecodedTx)
    ensures
        r@ == default_record(method@, value),
{
    let path: Vec<Address> = Vec::new();
    proof {
        assert(addresses_view(path@) =~= Seq::empty());
    }
    DecodedTx {
        amount_out_min: U256::zero(),
        path,
        to: Address::zero(),
        deadline: U256::zero(),
        effective_value: value,
        method: String::from_str(method),
    }
}

/// The cheap pre-filter applied before a full decode. Every payload passes:
/// all filtering happens when the payload is decoded.
pub fn is_target_transaction(_input_data: &[u8]) -> (r: bool)
    ensures
        r,
{
    true
}

/// Decodes a payload against the decode table. Never fails: a payload that
/// no rule accepts gives the "Unknown" record, an empty one the
/// "Native Transfer" record.
pub fn decode_transaction(input_data: &[u8], tx_value: U256) -> (r: Result<DecodedTx, String>)
    ensures
        r matches Ok(d) && d@ == decode_spec(input_data@, tx_value) && d.wf(),
{
    Ok(decode_payload(input_data, tx_value))
}

/// `decode_transaction` without the `Result` that never holds an error.
pub fn decode_payload(input_data: &[u8], tx_value: U256) -> (r: DecodedTx)
    ensures
        r@ == decode_spec(input_data@, tx_value),
        r.wf(),
{
    let r = decode_table(input_data, tx_value);
    proof {
        lemma_addresses_well_formed(input_data@, tx_value);
        assert forall|i: int| 0 <= i < r.path@.len() implies (#[trigger] r.path@[i]).wf() by {
            let d = decode_spec(input_data@, tx_value);
            assert(addresses_view(r.path@).len() == r.path@.len());
            assert(addresses_view(r.path@)[i] == r.path@[i].bytes@);
            assert(d.path[i].len() == 20);
        }
    }
    r
}

fn decode_table(input_data: &[u8], tx_value: U256) -> (r: DecodedTx)
    ensures
        r@ == decode_spec(input_data@, tx_value),
{
    let b = input_data;
    if b.len() == 0 {
        return default_tx("Native Transfer", tx_value);
    }
    if b.len() < 4 {
        return default_tx("Unknown", tx_value);
    }
    let sel = read_selector(b);
    let found = if sel == SWAP_EXACT_ETH_FOR_TOKENS {
        decode_eth_for_x(b, tx_value, "swapExactETHForTokens")
    } else if sel == SWAP_ETH_FOR_EXACT_TOKENS {
        decode_eth_for_x(b, tx_value, "swapETHForExactTokens")
    } else if sel == SWAP_EXACT_TOKENS_FOR_ETH {
        decode_tokens_for_x(b, tx_value, "swapExactTokensForETH", false)
    } else if sel == SWAP_EXACT_TOKENS_FOR_TOKENS {
        decode_tokens_for_x(b, tx_value, "swapExactTokensForTokens", false)
    } else if sel == SWAP_TOKENS_FOR_EXACT_TOKENS {
        decode_tokens_for_x(b, tx_value, "swapTokensForExactTokens", true)
    } else if sel == SWAP_TOKENS_FOR_EXACT_ETH {
        decode_tokens_for_x(b, tx_value, "swapTokensForExactETH", true)
    } else if sel == EXACT_INPUT_SINGLE {
        decode_exact_input_single(b, tx_value)
    } else if sel == EXACT_INPUT {
        decode_exact_input(b, tx_value)
    } else if sel == MULTICALL_V3 {
        decode_multicall(b, tx_value)
    } else if sel == AGGREGATOR_SWAP {
        decode_aggregator_swap(b, tx_value)
    } else {
        None
    };
    match found {
        Some(d) => d,
        None => default_tx("Unknown", tx_value),
    }
}

/// The input amount that a payload declares, for the rules that expose one.
pub open spec fn declared_amount_in(s: Seq<u8>) -> Option<U256> {
    if s.len() < 4 {
        None
    } else {
        let sel = selector_of(s);
        if (sel == SWAP_EXACT_TOKENS_FOR_ETH as nat || sel == SWAP_EXACT_TOKENS_FOR_TOKENS as nat)
            && tokens_for_x_ok(s) {
            Some(word_at(s, head(0)))
        } else if (sel == SWAP_TOKENS_FOR_EXACT_TOKENS as nat || sel == SWAP_TOKENS_FOR_EXACT_ETH
            as nat) && tokens_for_x_ok(s) {
            Some(word_at(s, head(1)))
        } else if sel == EXACT_INPUT_SINGLE as nat && exact_input_single_ok(s) {
            Some(word_at(s, head(5)))
        } else if sel == EXACT_INPUT as nat && exact_input_ok(s) {
            Some(word_at(s, head(4)))
        } else if sel == AGGREGATOR_SWAP as nat && aggregator_swap_ok(s) {
            Some(word_at(s, head(5)))
        } else {
            None
        }
    }
}

/// A payload too short for a selector, or whose selector is unknown, decodes
/// to the "Unknown" record: empty path, observed value passed through.
pub proof fn lemma_fail_open(s: Seq<u8>, value: U256)
    requires
        0 < s.len() < 4 || (s.len() >= 4 && !is_known_selector(selector_of(s))),
    ensures
        decode_spec(s, value) == default_record("Unknown"@, value),
        decode_spec(s, value).method == "Unknown"@,
        decode_spec(s, value).path.len() == 0,
        decode_spec(s, value).effective_value == value,
{
}

/// Some rule of the decode table accepts the payload: its selector has a
/// rule and the payload has that rule's layout.
pub open spec fn rule_applies(s: Seq<u8>) -> bool {
    let sel = selector_of(s);
    s.len() >= 4 && ((sel == SWAP_EXACT_ETH_FOR_TOKENS as nat && eth_for_tokens_ok(s)) || (sel
        == SWAP_ETH_FOR_EXACT_TOKENS as nat && eth_for_tokens_ok(s)) || ((sel
        == SWAP_EXACT_TOKENS_FOR_ETH as nat || sel == SWAP_EXACT_TOKENS_FOR_TOKENS as nat || sel
        == SWAP_TOKENS_FOR_EXACT_TOKENS as nat || sel == SWAP_TOKENS_FOR_EXACT_ETH as nat)
        && tokens_for_x_ok(s)) || (sel == EXACT_INPUT_SINGLE as nat && exact_input_single_ok(s))
        || (sel == EXACT_INPUT as nat && exact_input_ok(s)) || (sel == MULTICALL_V3 as nat
        && multicall_ok(s)) || (sel == AGGREGATOR_SWAP as nat && aggregator_swap_ok(s)))
}

/// A nonempty payload decodes to the "Unknown" record exactly when no rule
/// of the decode table accepts it.
pub proof fn lemma_unknown_iff_no_rule(s: Seq<u8>, value: U256)
    requires
        s.len() > 0,
    ensures
        (decode_spec(s, value) == default_record("Unknown"@, value)) == !rule_applies(s),
        (decode_spec(s, value).method == "Unknown"@) == !rule_applies(s),
{
    reveal_strlit("Unknown");
    reveal_strlit("swapExactETHForTokens");
    reveal_strlit("swapETHForExactTokens");
    reveal_strlit("swapExactTokensForETH");
    reveal_strlit("swapExactTokensForTokens");
    reveal_strlit("exactInputSingle");
    reveal_strlit("exactInput");
    reveal_strlit("multicall");
    reveal_strlit("aggregatorSwap");
    reveal_strlit("swapTokensForExactTokens");
    reveal_strlit("swapTokensForExactETH");
    let d = decode_spec(s, value);
    assert("Unknown"@.len() == 7);
    if rule_applies(s) {
        assert(d.method.len() > 7);
        assert(d.method != "Unknown"@);
        assert(d != default_record("Unknown"@, value));
    } else {
        assert(d == default_record("Unknown"@, value));
    }
}

/// An empty payload is a native transfer of the observed value.
pub proof fn lemma_native_transfer(value: U256)
    ensures
        decode_spec(Seq::empty(), value) == default_record("Native Transfer"@, value),
        decode_spec(Seq::empty(), value).effective_value == value,
{
}

/// Where a rule exposes a declared input amount `a`, the effective value is
/// the larger of `a` and the observed value.
pub proof fn lemma_effective_value_is_max(s: Seq<u8>, value: U256, a: U256)
    requires
        declared_amount_in(s) == Some(a),
    ensures
        decode_spec(s, value).effective_value.value() == max_nat(a.value(), value.value()),
{
}

/// Every address that a decoded record holds is 20 bytes long.
pub proof fn lemma_addresses_well_formed(s: Seq<u8>, value: U256)
    ensures
        decode_spec(s, value).to.len() == 20,
        forall|i: int|
            0 <= i < decode_spec(s, value).path.len() ==> (#[trigger] decode_spec(s, value).path[i]).len()
                == 20,
{
}

/// Every decoded record carries a nonempty method tag, and its effective
/// value never falls below the observed value.
pub proof fn lemma_record_invariants(s: Seq<u8>, value: U256)
    ensures
        decode_spec(s, value).effective_value.value() >= value.value(),
        decode_spec(s, value).method.len() > 0,
{
    reveal_strlit("Native Transfer");
    reveal_strlit("Unknown");
    reveal_strlit("swapExactETHForTokens");
    reveal_strlit("swapExactTokensForETH");
    reveal_strlit("swapExactTokensForTokens");
    reveal_strlit("exactInputSingle");
    reveal_strlit("exactInput");
    reveal_strlit("swapETHForExactTokens");
    reveal_strlit("multicall");
    reveal_strlit("aggregatorSwap");
    reveal_strlit("swapTokensForExactTokens");
    reveal_strlit("swapTokensForExactETH");
}

} // verus!

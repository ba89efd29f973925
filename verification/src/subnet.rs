//! IPv4 addresses as four octets, and the arithmetic on subnets: the prefix
//! length of a mask and the address of the namespace-side peer.

use vstd::arithmetic::power2::{lemma2_to64, lemma_pow2_pos, lemma_pow2_unfold, pow2};
use vstd::bits::{lemma_u64_pow2_no_overflow, lemma_u64_shl_is_mul};
use vstd::prelude::*;

verus! {

/// An IPv4 address, written `a.b.c.d`.
#[derive(Clone, Copy, Debug, PartialEq, Eq, Structural)]
pub struct Ipv4 {
    pub a: u8,
    pub b: u8,
    pub c: u8,
    pub d: u8,
}

/// Number of one-bits in the binary expansion of `v`.
pub open spec fn popcount(v: nat) -> nat
    decreases v,
{
    if v == 0 {
        0
    } else {
        v % 2 + popcount(v / 2)
    }
}

/// Prefix length of a dotted mask: the one-bits of its four octets, counted.
pub open spec fn prefix_len(mask: Ipv4) -> nat {
    popcount(mask.a as nat) + popcount(mask.b as nat) + popcount(mask.c as nat) + popcount(
        mask.d as nat,
    )
}

/// First address of the `/prefix` block that holds `addr`.
pub open spec fn network_address(addr: nat, prefix: nat) -> nat {
    (addr - addr % pow2((32 - prefix) as nat)) as nat
}

/// The address handed to the namespace-side peer: the one that follows the
/// network address, within 32 bits.
pub open spec fn peer_address(addr: nat, prefix: nat) -> nat {
    (network_address(addr, prefix) + 1) % 0x1_0000_0000
}

impl Ipv4 {
    /// The address as one number, `a` being the most significant octet.
    pub open spec fn bits(self) -> nat {
        (self.a * 0x100_0000 + self.b * 0x1_0000 + self.c * 0x100 + self.d) as nat
    }

    /// The address as the kernel prints it in its route table: one number
    /// whose least significant octet is `a`.
    pub open spec fn table_value(self) -> nat {
        (self.d * 0x100_0000 + self.c * 0x1_0000 + self.b * 0x100 + self.a) as nat
    }

    pub open spec fn unspecified_spec() -> Ipv4 {
        Ipv4 { a: 0, b: 0, c: 0, d: 0 }
    }

    /// The address whose number is `v`.
    pub open spec fn of_bits(v: u32) -> Ipv4 {
        Ipv4 {
            a: (v / 0x100_0000) as u8,
            b: (v / 0x1_0000 % 0x100) as u8,
            c: (v / 0x100 % 0x100) as u8,
            d: (v % 0x100) as u8,
        }
    }

    /// The address whose route-table number is `v`.
    pub open spec fn of_table_value(v: u32) -> Ipv4 {
        Ipv4 {
            a: (v % 0x100) as u8,
            b: (v / 0x100 % 0x100) as u8,
            c: (v / 0x1_0000 % 0x100) as u8,
            d: (v / 0x100_0000) as u8,
        }
    }

    pub fn new(a: u8, b: u8, c: u8, d: u8) -> (ip: Ipv4)
        ensures
            ip == (Ipv4 { a, b, c, d }),
    {
        Ipv4 { a, b, c, d }
    }

    /// The address `0.0.0.0`.
    #[verifier::when_used_as_spec(unspecified_spec)]
    pub fn unspecified() -> (ip: Ipv4)
        ensures
            ip == Ipv4::unspecified_spec(),
    {
        Ipv4 { a: 0, b: 0, c: 0, d: 0 }
    }

    pub fn is_unspecified(&self) -> (zero: bool)
        ensures
            zero == (*self == Ipv4::unspecified_spec()),
            zero == (self.bits() == 0),
            zero == (self.table_value() == 0),
    {
        self.a == 0 && self.b == 0 && self.c == 0 && self.d == 0
    }

    pub fn octets(&self) -> (o: [u8; 4])
        ensures
            o@ == seq![self.a, self.b, self.c, self.d],
    {
        let o: [u8; 4] = [self.a, self.b, self.c, self.d];
        assert(o@ =~= seq![self.a, self.b, self.c, self.d]);
        o
    }

    pub fn to_bits(&self) -> (v: u32)
        ensures
            v == self.bits(),
    {
        let a: u32 = self.a as u32;
        let b: u32 = self.b as u32;
        let c: u32 = self.c as u32;
        let d: u32 = self.d as u32;
        a * 0x100_0000 + b * 0x1_0000 + c * 0x100 + d
    }

    pub fn from_bits(v: u32) -> (ip: Ipv4)
        ensures
            ip == Ipv4::of_bits(v),
            ip.bits() == v,
    {
        Ipv4 {
            a: (v / 0x100_0000) as u8,
            b: (v / 0x1_0000 % 0x100) as u8,
            c: (v / 0x100 % 0x100) as u8,
            d: (v % 0x100) as u8,
        }
    }

    /// Reads an address out of a route-table number.
    pub fn from_table_value(v: u32) -> (ip: Ipv4)
        ensures
            ip == Ipv4::of_table_value(v),
            ip.table_value() == v,
    {
        Ipv4 {
            a: (v % 0x100) as u8,
            b: (v / 0x100 % 0x100) as u8,
            c: (v / 0x1_0000 % 0x100) as u8,
            d: (v / 0x100_0000) as u8,
        }
    }
}

/// Reading a number as an address and the address as a number gives the number
/// back, in either byte order.
pub proof fn lemma_of_value_round_trip(v: u32)
    ensures
        Ipv4::of_bits(v).bits() == v,
        Ipv4::of_table_value(v).table_value() == v,
        Ipv4::of_bits(v) == Ipv4::unspecified_spec() <==> v == 0,
        Ipv4::of_table_value(v) == Ipv4::unspecified_spec() <==> v == 0,
{
}

/// Two addresses with the same number are the same address.
pub proof fn lemma_bits_injective(x: Ipv4, y: Ipv4)
    requires
        x.bits() == y.bits(),
    ensures
        x == y,
{
    let k1: int = (y.c - x.c) + 0x100 * (y.b - x.b) + 0x1_0000 * (y.a - x.a);
    assert(x.d - y.d == 0x100 * k1);
    assert(k1 == 0);
    let k2: int = (y.b - x.b) + 0x100 * (y.a - x.a);
    assert(x.c - y.c == 0x100 * k2);
    assert(k2 == 0);
}

/// Two addresses with the same route-table number are the same address.
pub proof fn lemma_table_value_injective(x: Ipv4, y: Ipv4)
    requires
        x.table_value() == y.table_value(),
    ensures
        x == y,
{
    let k1: int = (y.b - x.b) + 0x100 * (y.c - x.c) + 0x1_0000 * (y.d - x.d);
    assert(x.a - y.a == 0x100 * k1);
    assert(k1 == 0);
    let k2: int = (y.c - x.c) + 0x100 * (y.d - x.d);
    assert(x.b - y.b == 0x100 * k2);
    assert(k2 == 0);
}

/// A number below `2^k` has at most `k` one-bits.
pub proof fn lemma_popcount_bound(v: nat, k: nat)
    requires
        v < pow2(k),
    ensures
        popcount(v) <= k,
    decreases k,
{
    if k == 0 {
        lemma2_to64();
    } else if v != 0 {
        lemma_pow2_unfold(k);
        lemma_popcount_bound(v / 2, (k - 1) as nat);
    }
}

/// The one-bits of `hi * 2^k + lo`, with `lo` below `2^k`, are those of `hi`
/// and those of `lo`.
pub proof fn lemma_popcount_concat(hi: nat, lo: nat, k: nat)
    requires
        lo < pow2(k),
    ensures
        popcount(hi * pow2(k) + lo) == popcount(hi) + popcount(lo),
    decreases k,
{
    if k == 0 {
        lemma2_to64();
        assert(hi * 1 == hi) by (nonlinear_arith);
    } else {
        let p = pow2((k - 1) as nat);
        let x = hi * pow2(k) + lo;
        lemma_pow2_unfold(k);
        lemma_pow2_pos((k - 1) as nat);
        assert(hi * (2 * p) == 2 * (hi * p)) by (nonlinear_arith);
        assert(hi * p >= 0) by (nonlinear_arith)
            requires
                hi >= 0,
                p >= 0,
        ;
        assert(x == 2 * (hi * p) + lo);
        if x != 0 {
            assert(x / 2 == hi * p + lo / 2);
            assert(x % 2 == lo % 2);
            lemma_popcount_concat(hi, lo / 2, (k - 1) as nat);
            assert(popcount(lo) == lo % 2 + popcount(lo / 2));
        } else {
            assert(hi == 0) by (nonlinear_arith)
                requires
                    hi * p == 0,
                    p > 0,
                    hi >= 0,
            ;
        }
    }
}

/// The prefix length of a mask is the number of one-bits of the mask taken as
/// one 32-bit number, in either byte order.
pub proof fn lemma_prefix_len_counts_bits(mask: Ipv4)
    ensures
        prefix_len(mask) == popcount(mask.bits()),
        prefix_len(mask) == popcount(mask.table_value()),
        prefix_len(mask) <= 32,
{
    lemma2_to64();
    let a = mask.a as nat;
    let b = mask.b as nat;
    let c = mask.c as nat;
    let d = mask.d as nat;
    lemma_popcount_concat(a, b, 8);
    lemma_popcount_concat(a * 0x100 + b, c, 8);
    lemma_popcount_concat((a * 0x100 + b) * 0x100 + c, d, 8);
    lemma_popcount_concat(d, c, 8);
    lemma_popcount_concat(d * 0x100 + c, b, 8);
    lemma_popcount_concat((d * 0x100 + c) * 0x100 + b, a, 8);
    lemma_popcount_bound(mask.bits(), 32);
}

/// `2^n - 2^m` is a run of `n - m` one-bits followed by `m` zero-bits.
pub proof fn lemma_popcount_run(n: nat, m: nat)
    requires
        m <= n,
    ensures
        pow2(m) <= pow2(n),
        popcount((pow2(n) - pow2(m)) as nat) == n - m,
    decreases n,
{
    lemma_pow2_pos(n);
    lemma_pow2_pos(m);
    if m == n {
    } else if m == 0 {
        lemma2_to64();
        lemma_pow2_unfold(n);
        lemma_pow2_pos((n - 1) as nat);
        lemma_popcount_run((n - 1) as nat, 0);
        let x = (pow2(n) - 1) as nat;
        assert(x / 2 == pow2((n - 1) as nat) - 1);
        assert(x % 2 == 1);
    } else {
        lemma_pow2_unfold(n);
        lemma_pow2_unfold(m);
        lemma_popcount_run((n - 1) as nat, (m - 1) as nat);
        let x = (pow2(n) - pow2(m)) as nat;
        assert(x / 2 == pow2((n - 1) as nat) - pow2((m - 1) as nat));
        assert(x % 2 == 0);
    }
}

/// A mask of `k` leading one-bits and zeros elsewhere has prefix length `k`.
pub proof fn lemma_contiguous_mask_prefix(mask: Ipv4, k: nat)
    requires
        k <= 32,
        mask.bits() == pow2(32) - pow2((32 - k) as nat),
    ensures
        prefix_len(mask) == k,
{
    lemma_prefix_len_counts_bits(mask);
    lemma_popcount_run(32, (32 - k) as nat);
}

/// The peer address lies in the same `/prefix` block as the address it was
/// derived from, whenever the block holds more than one address.
pub proof fn lemma_peer_in_subnet(addr: nat, prefix: nat)
    requires
        addr < 0x1_0000_0000,
        prefix <= 31,
    ensures
        peer_address(addr, prefix) == network_address(addr, prefix) + 1,
        network_address(peer_address(addr, prefix), prefix) == network_address(addr, prefix),
{
    let h = (32 - prefix) as nat;
    let block = pow2(h);
    lemma2_to64();
    lemma_pow2_pos(h);
    lemma_pow2_unfold(h);
    lemma_pow2_pos((h - 1) as nat);
    lemma_block_fits(h);
    let net = network_address(addr, prefix);
    let q = addr / block;
    assert(addr == block * q + addr % block) by {
        vstd::arithmetic::div_mod::lemma_fundamental_div_mod(addr as int, block as int);
    }
    assert(net == block * q);
    assert(net + 1 <= addr + 1 || addr % block == 0);
    assert(block * q + block <= 0x1_0000_0000) by {
        lemma_block_count(addr, h);
    }
    assert((net + 1) % block == 1 && (net + 1) / block == q) by {
        vstd::arithmetic::div_mod::lemma_fundamental_div_mod_converse(
            (net + 1) as int,
            block as int,
            q as int,
            1,
        );
    }
    assert((net + 1) % 0x1_0000_0000 == net + 1);
}

/// The peer address equals the address it was derived from exactly when that
/// address is itself the first one after the network address.
pub proof fn lemma_peer_equals_iff_first_host(addr: nat, prefix: nat)
    requires
        addr < 0x1_0000_0000,
        prefix <= 32,
    ensures
        peer_address(addr, prefix) == addr <==> addr % pow2((32 - prefix) as nat) == 1,
{
    let h = (32 - prefix) as nat;
    let block = pow2(h);
    lemma2_to64();
    lemma_pow2_pos(h);
    lemma_block_fits(h);
    let net = network_address(addr, prefix);
    vstd::arithmetic::div_mod::lemma_mod_decreases(addr, block);
    assert(net == addr - addr % block);
    if prefix == 32 {
        assert(block == 1);
        assert(addr % block == 0);
        assert(net == addr);
        if addr + 1 == 0x1_0000_0000 {
            assert((addr + 1) % 0x1_0000_0000 == 0);
        } else {
            assert((addr + 1) % 0x1_0000_0000 == addr + 1);
        }
    } else {
        lemma_peer_in_subnet(addr, prefix);
    }
}

/// For every prefix from 1 to 30, the peer address differs from the uplink
/// address it was derived from, unless the uplink address is itself the first
/// address after the network address of its block.
pub proof fn lemma_peer_differs_from_uplink(uplink: Ipv4, prefix: nat)
    requires
        1 <= prefix <= 30,
        uplink.bits() % pow2((32 - prefix) as nat) != 1,
    ensures
        peer_address(uplink.bits(), prefix) != uplink.bits(),
{
    lemma_peer_equals_iff_first_host(uplink.bits(), prefix);
}

proof fn lemma_block_fits(h: nat)
    requires
        h <= 32,
    ensures
        pow2(h) <= 0x1_0000_0000,
    decreases 32 - h,
{
    lemma2_to64();
    if h < 32 {
        lemma_pow2_unfold(h + 1);
        lemma_block_fits(h + 1);
    }
}

proof fn lemma_block_count(addr: nat, h: nat)
    requires
        addr < 0x1_0000_0000,
        h <= 32,
    ensures
        pow2(h) * (addr / pow2(h)) + pow2(h) <= 0x1_0000_0000,
{
    let block = pow2(h);
    let rest = pow2((32 - h) as nat);
    lemma2_to64();
    lemma_pow2_pos(h);
    lemma_pow2_pos((32 - h) as nat);
    vstd::arithmetic::power2::lemma_pow2_adds(h, (32 - h) as nat);
    assert(block * rest == 0x1_0000_0000);
    let q = addr / block;
    vstd::arithmetic::div_mod::lemma_fundamental_div_mod(addr as int, block as int);
    assert(q < rest) by (nonlinear_arith)
        requires
            block * q <= addr,
            addr < block * rest,
            block > 0,
    ;
    assert(block * q + block <= block * rest) by (nonlinear_arith)
        requires
            q + 1 <= rest,
            block > 0,
    ;
}

/// Counts the one-bits of `v`.
pub fn count_ones(v: u32) -> (n: u8)
    ensures
        n == popcount(v as nat),
        n <= 32,
{
    let mut rest: u32 = v;
    let mut n: u8 = 0;
    proof {
        lemma2_to64();
        lemma_popcount_bound(v as nat, 32);
    }
    while rest != 0
        invariant
            n + popcount(rest as nat) == popcount(v as nat),
            popcount(v as nat) <= 32,
        decreases rest,
    {
        assert(rest & 1 == rest % 2) by (bit_vector);
        assert(rest >> 1 == rest / 2) by (bit_vector);
        n = n + (rest & 1) as u8;
        rest = rest >> 1;
    }
    n
}

/// Prefix length of a dotted mask.
///
/// The one-bits of the four octets are counted wherever they stand, so the
/// result is the CIDR prefix length only for a mask whose one-bits are all
/// leading; for any other mask it is a number of the right size and the wrong
/// meaning.
pub fn mask_to_prefix(mask: Ipv4) -> (prefix: u8)
    ensures
        prefix == prefix_len(mask),
        prefix <= 32,
{
    proof {
        lemma2_to64();
        lemma_popcount_bound(mask.a as nat, 8);
        lemma_popcount_bound(mask.b as nat, 8);
        lemma_popcount_bound(mask.c as nat, 8);
        lemma_popcount_bound(mask.d as nat, 8);
    }
    let a: u8 = count_ones(mask.a as u32);
    let b: u8 = count_ones(mask.b as u32);
    let c: u8 = count_ones(mask.c as u32);
    let d: u8 = count_ones(mask.d as u32);
    a + b + c + d
}

/// Address of the namespace-side peer for an uplink address and a prefix
/// length: the first address after the network address of the uplink's block.
///
/// Earlier generations of this tool also derived the peer by shifting and
/// masking the host bits of the uplink address, which gives another address at
/// the edges of a block. That formula is deprecated and not offered here.
///
/// The peer is the uplink address itself exactly when the uplink address is
/// the first address after the network address of its block.
pub fn derive_peer_address(ip: Ipv4, prefix: u8) -> (peer: Ipv4)
    requires
        prefix <= 32,
    ensures
        peer.bits() == peer_address(ip.bits(), prefix as nat),
        (peer == ip) == (ip.bits() % pow2((32 - prefix) as nat) == 1),
{
    let host_bits: u64 = 32 - prefix as u64;
    proof {
        lemma2_to64();
        lemma_block_fits(host_bits as nat);
        lemma_u64_pow2_no_overflow(host_bits as nat);
        lemma_u64_shl_is_mul(1, host_bits);
    }
    let block: u64 = 1u64 << host_bits;
    let addr: u64 = ip.to_bits() as u64;
    assert(block == pow2(host_bits as nat) && block > 0 && addr % block <= addr) by {
        lemma_pow2_pos(host_bits as nat);
        vstd::arithmetic::div_mod::lemma_mod_decreases(addr as nat, block as nat);
    }
    let network: u64 = addr - addr % block;
    let next: u64 = (network + 1) % 0x1_0000_0000;
    let peer = Ipv4::from_bits(next as u32);
    proof {
        lemma_peer_equals_iff_first_host(ip.bits() as nat, prefix as nat);
        if peer.bits() == ip.bits() {
            lemma_bits_injective(peer, ip);
        }
    }
    peer
}

} // verus!

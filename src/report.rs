//! The results table as comma-separated text: a header row, then one row per
//! candidate and configuration, timings in seconds with nine decimal digits.

use vstd::prelude::*;
use crate::stats::TimingSummary;
use vstd::string::StringSliceAdditionalSpecFns;

verus! {

/// Nanoseconds in a second.
pub const NANOS_PER_SEC: u64 = 1_000_000_000;

/// The ASCII digit for `d < 10`.
pub open spec fn digit(d: nat) -> u8 {
    (48 + d) as u8
}

/// The decimal numeral of `n`, without leading zeros.
pub open spec fn decimal(n: nat) -> Seq<u8>
    decreases n,
{
    if n < 10 {
        seq![digit(n)]
    } else {
        decimal(n / 10).push(digit(n % 10))
    }
}

/// The last `k` decimal digits of `n`, zero-padded to exactly `k` digits.
pub open spec fn fixed_digits(n: nat, k: nat) -> Seq<u8>
    decreases k,
{
    if k == 0 {
        seq![]
    } else {
        fixed_digits(n / 10, (k - 1) as nat).push(digit(n % 10))
    }
}

/// `n` thousand-millionths written as a fixed-point number with nine decimals:
/// nanoseconds as seconds.
pub open spec fn fixed9(n: nat) -> Seq<u8> {
    decimal(n / 1_000_000_000) + seq![46u8] + fixed_digits(n % 1_000_000_000, 9)
}

/// The digits after the point of a fraction `f` with `k` decimal places, with
/// its trailing zeros dropped: empty when `f` is zero.
pub open spec fn fraction_digits(f: nat, k: nat) -> Seq<u8>
    decreases k,
{
    if k == 0 {
        seq![]
    } else if f % 10 == 0 {
        fraction_digits(f / 10, (k - 1) as nat)
    } else {
        fixed_digits(f, k)
    }
}

/// `n` millionths in their shortest decimal form: the whole part, then a point
/// and the fraction's digits without trailing zeros when the fraction is not
/// zero (`50000` is `0.05`, `1000000` is `1`).
pub open spec fn shortest_millionths(n: nat) -> Seq<u8> {
    if n % 1_000_000 == 0 {
        decimal(n / 1_000_000)
    } else {
        decimal(n / 1_000_000) + seq![46u8] + fraction_digits(n % 1_000_000, 6)
    }
}

fn push_decimal(out: &mut Vec<u8>, n: u64)
    ensures
        final(out)@ == old(out)@ + decimal(n as nat),
    decreases n,
{
    if n >= 10 {
        push_decimal(out, n / 10);
    }
    out.push(48u8 + (n % 10) as u8);
    assert(n < 10 ==> decimal(n as nat) == seq![digit(n as nat)]);
}

fn push_fixed(out: &mut Vec<u8>, n: u64, k: u64)
    ensures
        final(out)@ == old(out)@ + fixed_digits(n as nat, k as nat),
    decreases k,
{
    if k == 0 {
        assert(old(out)@ + fixed_digits(n as nat, 0) =~= old(out)@);
        return;
    }
    push_fixed(out, n / 10, k - 1);
    out.push(48u8 + (n % 10) as u8);
}

fn push_bytes(out: &mut Vec<u8>, s: &str)
    ensures
        final(out)@ == old(out)@ + s.spec_bytes(),
{
    let b = s.as_bytes();
    let ghost start = out@;
    let mut i: usize = 0;
    while i < b.len()
        invariant
            b@ == s.spec_bytes(),
            i <= b@.len(),
            out@ == start + b@.subrange(0, i as int),
        decreases b.len() - i,
    {
        out.push(b[i]);
        i = i + 1;
        assert(out@ =~= start + b@.subrange(0, i as int));
    }
    assert(b@.subrange(0, i as int) =~= b@);
}

fn push_fixed9(out: &mut Vec<u8>, n: u64)
    ensures
        final(out)@ == old(out)@ + fixed9(n as nat),
{
    let ghost start = out@;
    push_decimal(out, n / NANOS_PER_SEC);
    out.push(46u8);
    push_fixed(out, n % NANOS_PER_SEC, 9);
    assert(out@ =~= start + fixed9(n as nat));
}

fn push_fraction(out: &mut Vec<u8>, f: u64, k: u64)
    ensures
        final(out)@ == old(out)@ + fraction_digits(f as nat, k as nat),
    decreases k,
{
    if k == 0 {
        assert(old(out)@ + fraction_digits(f as nat, 0) =~= old(out)@);
    } else if f % 10 == 0 {
        push_fraction(out, f / 10, k - 1);
    } else {
        push_fixed(out, f, k);
    }
}

fn push_shortest_millionths(out: &mut Vec<u8>, n: u64)
    ensures
        final(out)@ == old(out)@ + shortest_millionths(n as nat),
{
    let ghost start = out@;
    push_decimal(out, n / 1_000_000);
    if n % 1_000_000 != 0 {
        out.push(46u8);
        push_fraction(out, n % 1_000_000, 6);
    }
    assert(out@ =~= start + shortest_millionths(n as nat));
}

/// The header row of the sort timing table.
pub fn sort_csv_header() -> (r: Vec<u8>)
    ensures
        r@ == "algorithm,distribution,n,runs,median_sec,mean_sec,min_sec,max_sec\n".spec_bytes(),
{
    let mut r: Vec<u8> = Vec::new();
    push_bytes(&mut r, "algorithm,distribution,n,runs,median_sec,mean_sec,min_sec,max_sec\n");
    assert(r@ =~= "algorithm,distribution,n,runs,median_sec,mean_sec,min_sec,max_sec\n".spec_bytes());
    r
}

/// The header row of the shortest-path timing table.
pub fn path_csv_header() -> (r: Vec<u8>)
    ensures
        r@ == "algorithm,num_nodes,edge_prob,runs,median_sec,mean_sec\n".spec_bytes(),
{
    let mut r: Vec<u8> = Vec::new();
    push_bytes(&mut r, "algorithm,num_nodes,edge_prob,runs,median_sec,mean_sec\n");
    assert(r@ =~= "algorithm,num_nodes,edge_prob,runs,median_sec,mean_sec\n".spec_bytes());
    r
}

/// One row of the sort timing table, ended by a newline.
pub fn sort_csv_row(
    algorithm: &str,
    distribution: &str,
    n: usize,
    s: &TimingSummary,
) -> (r: Vec<u8>)
    ensures
        r@ == algorithm.spec_bytes() + seq![44u8] + distribution.spec_bytes() + seq![44u8]
            + decimal(n as nat) + seq![44u8] + decimal(s.runs as nat) + seq![44u8] + fixed9(
            s.median_ns as nat,
        ) + seq![44u8] + fixed9(s.mean_ns as nat) + seq![44u8] + fixed9(s.min_ns as nat) + seq![
            44u8,
        ] + fixed9(s.max_ns as nat) + seq![10u8],
{
    let mut r: Vec<u8> = Vec::new();
    push_bytes(&mut r, algorithm);
    r.push(44u8);
    push_bytes(&mut r, distribution);
    r.push(44u8);
    push_decimal(&mut r, n as u64);
    r.push(44u8);
    push_decimal(&mut r, s.runs as u64);
    r.push(44u8);
    push_fixed9(&mut r, s.median_ns);
    r.push(44u8);
    push_fixed9(&mut r, s.mean_ns);
    r.push(44u8);
    push_fixed9(&mut r, s.min_ns);
    r.push(44u8);
    push_fixed9(&mut r, s.max_ns);
    r.push(10u8);
    r
}

/// One row of the shortest-path timing table, ended by a newline; the edge
/// probability is given in parts per million and written in its shortest
/// decimal form.
pub fn path_csv_row(
    algorithm: &str,
    num_nodes: usize,
    edge_prob_ppm: u64,
    s: &TimingSummary,
) -> (r: Vec<u8>)
    ensures
        r@ == algorithm.spec_bytes() + seq![44u8] + decimal(num_nodes as nat) + seq![44u8]
            + shortest_millionths(edge_prob_ppm as nat) + seq![44u8] + decimal(s.runs as nat) + seq![44u8]
            + fixed9(s.median_ns as nat) + seq![44u8] + fixed9(s.mean_ns as nat) + seq![10u8],
{
    let mut r: Vec<u8> = Vec::new();
    push_bytes(&mut r, algorithm);
    r.push(44u8);
    push_decimal(&mut r, num_nodes as u64);
    r.push(44u8);
    push_shortest_millionths(&mut r, edge_prob_ppm);
    r.push(44u8);
    push_decimal(&mut r, s.runs as u64);
    r.push(44u8);
    push_fixed9(&mut r, s.median_ns);
    r.push(44u8);
    push_fixed9(&mut r, s.mean_ns);
    r.push(10u8);
    r
}

} // verus!

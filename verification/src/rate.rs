//! Transfer rates as shown to the user.
use vstd::prelude::*;
use vstd::string::*;

use crate::number::{decimal, decimal_text, digit};

verus! {

pub const KIB: u128 = 1024;

pub const MIB: u128 = 1_048_576;

pub const GIB: u128 = 1_073_741_824;

/// The quotient rounded to the nearest whole number, ties to the even one.
pub open spec fn rounded_div(a: nat, b: nat) -> nat {
    let q = a / b;
    let r = a % b;
    if 2 * r < b {
        q
    } else if 2 * r > b {
        q + 1
    } else {
        q + q % 2
    }
}

/// The distance between neighbouring double-precision numbers at `n`, which
/// have 53 significant bits.
pub open spec fn grain(n: nat) -> nat
    decreases n,
{
    if n < 0x20_0000_0000_0000 {
        1
    } else {
        2 * grain(n / 2)
    }
}

/// The whole number nearest to `n` that a double-precision number can hold,
/// ties to the even one.
pub open spec fn nearest_double(n: nat) -> nat {
    rounded_div(n, grain(n)) * grain(n)
}

/// `value / unit` with one digit behind the point.
pub open spec fn one_place(value: nat, unit: nat) -> Seq<char> {
    let tenths = rounded_div(value * 10, unit);
    decimal(tenths / 10) + seq!['.', digit(tenths % 10)]
}

/// `value / unit` with two digits behind the point.
pub open spec fn two_places(value: nat, unit: nat) -> Seq<char> {
    let hundredths = rounded_div(value * 100, unit);
    decimal(hundredths / 100) + seq!['.', digit(hundredths / 10 % 10), digit(hundredths % 10)]
}

/// A rate in bytes per second in the largest unit that it reaches.
pub open spec fn rate_text(bytes: nat) -> Seq<char> {
    let value = nearest_double(bytes);
    if value < KIB {
        decimal(value) + " B/s"@
    } else if value < MIB {
        one_place(value, KIB as nat) + " KiB/s"@
    } else if value < GIB {
        two_places(value, MIB as nat) + " MiB/s"@
    } else {
        two_places(value, GIB as nat) + " GiB/s"@
    }
}

fn round_div(a: u128, b: u128) -> (q: u128)
    requires
        0 < b,
        a <= 0xffff_ffff_ffff_ffff_ffff_ffff,
        b <= 0xffff_ffff_ffff_ffff_ffff_ffff,
    ensures
        q == rounded_div(a as nat, b as nat),
{
    let q = a / b;
    let r = a % b;
    proof {
        assert(a / b <= a) by (nonlinear_arith)
            requires
                0 < b,
        ;
    }
    if 2 * r < b {
        q
    } else if 2 * r > b {
        q + 1
    } else {
        q + q % 2
    }
}

fn to_nearest_double(n: u64) -> (value: u128)
    ensures
        value == nearest_double(n as nat),
        value <= 0x2_0000_0000_0000_0000,
{
    let mut m: u64 = n;
    let mut g: u128 = 1;
    assert(g * grain(m as nat) == grain(n as nat));
    while m >= 0x20_0000_0000_0000
        invariant
            g * grain(m as nat) == grain(n as nat),
            1 <= g,
            m * g <= n,
            n < (m + 1) * g,
            m < 0x20_0000_0000_0000 ==> m >= 0x10_0000_0000_0000 || g == 1,
        decreases m,
    {
        let ghost m0 = m;
        let ghost g0 = g;
        proof {
            assert(g <= 0x800) by (nonlinear_arith)
                requires
                    m * g <= n,
                    n <= 0xffff_ffff_ffff_ffff,
                    m >= 0x20_0000_0000_0000,
            ;
            assert((g * 2) * grain((m / 2) as nat) == g * (2 * grain((m / 2) as nat)))
                by (nonlinear_arith);
            assert((m / 2) * (g * 2) <= m * g) by (nonlinear_arith);
            assert((m + 1) * g <= (m / 2 + 1) * (g * 2)) by (nonlinear_arith)
                requires
                    g >= 1,
            ;
        }
        m = m / 2;
        g = g * 2;
    }
    proof {
        assert(grain(m as nat) == 1);
        assert(g * 1 == g) by (nonlinear_arith);
        assert(g == grain(n as nat));
        assert(g <= 0x1000) by (nonlinear_arith)
            requires
                m * g <= n,
                n <= 0xffff_ffff_ffff_ffff,
                m >= 0x10_0000_0000_0000 || g == 1,
        ;
    }
    let q = round_div(n as u128, g);
    proof {
        rounded_bound(n as nat, g as nat, m as nat);
        assert(q * g <= 0x2_0000_0000_0000_0000) by (nonlinear_arith)
            requires
                q <= m + 1,
                m * g <= n,
                n <= 0xffff_ffff_ffff_ffff,
                g <= 0x1000,
        ;
    }
    q * g
}

/// Rounding moves a quotient up by at most one.
proof fn rounded_bound(n: nat, g: nat, m: nat)
    requires
        0 < g,
        m * g <= n < (m + 1) * g,
    ensures
        rounded_div(n, g) <= m + 1,
{
    assert(n / g == m) by (nonlinear_arith)
        requires
            0 < g,
            m * g <= n < (m + 1) * g,
    ;
}

fn push_point(text: &mut String, tenths: u8, hundredths: Option<u8>)
    requires
        tenths < 10,
        hundredths matches Some(h) ==> h < 10,
    ensures
        final(text)@ == old(text)@ + (match hundredths {
            Some(h) => seq!['.', digit(tenths as nat), digit(h as nat)],
            None => seq!['.', digit(tenths as nat)],
        }),
{
    text.push('.');
    text.push((48 + tenths) as char);
    match hundredths {
        Some(h) => text.push((48 + h) as char),
        None => {},
    }
}

fn two_places_text(value: u128, unit: u128) -> (text: String)
    requires
        0 < unit <= GIB,
        value <= 0x2_0000_0000_0000_0000,
    ensures
        text@ == two_places(value as nat, unit as nat),
{
    let hundredths = round_div(value * 100, unit);
    let mut text = decimal_text(hundredths / 100);
    push_point(&mut text, (hundredths / 10 % 10) as u8, Some((hundredths % 10) as u8));
    text
}

/// Writes a rate in bytes per second in the largest unit that it reaches: in
/// whole bytes, in KiB with one digit behind the point, in MiB or GiB with
/// two. The rate is first taken to the nearest double-precision number, which
/// changes rates from eight PiB per second on.
pub fn format_rate(bytes: u64) -> (text: String)
    ensures
        text@ == rate_text(bytes as nat),
{
    let value = to_nearest_double(bytes);
    if value < KIB {
        decimal_text(value).concat(" B/s")
    } else if value < MIB {
        let tenths = round_div(value * 10, KIB);
        let mut text = decimal_text(tenths / 10);
        push_point(&mut text, (tenths % 10) as u8, None);
        text.concat(" KiB/s")
    } else if value < GIB {
        two_places_text(value, MIB).concat(" MiB/s")
    } else {
        two_places_text(value, GIB).concat(" GiB/s")
    }
}

/// A rate below eight PiB per second is taken as it is, and one below 1024
/// bytes per second is shown to the byte.
pub proof fn small_rates_are_exact(bytes: nat)
    requires
        bytes < 0x20_0000_0000_0000,
    ensures
        nearest_double(bytes) == bytes,
        bytes < 1024 ==> rate_text(bytes) == decimal(bytes) + " B/s"@,
{
    assert(rounded_div(bytes, 1) == bytes);
    assert(bytes * 1 == bytes);
}

/// A quotient is rounded to the nearest whole number: it is off by half the
/// divisor at most, and where it is off by just that, it is even.
pub proof fn rounding_is_to_the_nearest(a: nat, b: nat)
    requires
        b > 0,
    ensures
        2 * (rounded_div(a, b) * b - a) <= b,
        2 * (a - rounded_div(a, b) * b) <= b,
        2 * (rounded_div(a, b) * b - a) == b || 2 * (a - rounded_div(a, b) * b) == b
            ==> rounded_div(a, b) % 2 == 0,
{
    let q = a / b;
    let r = a % b;
    vstd::arithmetic::div_mod::lemma_fundamental_div_mod(a as int, b as int);
    assert(b * q == q * b) by (nonlinear_arith);
    assert((q + 1) * b == q * b + b) by (nonlinear_arith);
    assert(0 <= r < b) by (nonlinear_arith)
        requires
            b > 0,
            r == a % b,
    ;
}

proof fn grain_facts(n: nat)
    ensures
        grain(n) >= 1,
        grain(n) == 1 <==> n < 0x20_0000_0000_0000,
        n >= 0x20_0000_0000_0000 ==> 0x10_0000_0000_0000 * grain(n) <= n < 0x20_0000_0000_0000
            * grain(n),
        grain(n) == 1 || grain(n) == 2 * grain(n / 2),
    decreases n,
{
    if n >= 0x20_0000_0000_0000 {
        grain_facts(n / 2);
    }
}

/// The number that is shown is one with 53 significant bits, the nearest to
/// the rate: it is a multiple of the distance between such numbers, and off by
/// half of that at most.
pub proof fn large_rates_are_rounded_to_doubles(bytes: nat)
    ensures
        nearest_double(bytes) % grain(bytes) == 0,
        2 * (nearest_double(bytes) - bytes) <= grain(bytes),
        2 * (bytes - nearest_double(bytes)) <= grain(bytes),
        bytes < 0x20_0000_0000_0000 ==> grain(bytes) == 1,
        bytes >= 0x20_0000_0000_0000 ==> 0x10_0000_0000_0000 * grain(bytes) <= bytes
            < 0x20_0000_0000_0000 * grain(bytes),
{
    grain_facts(bytes);
    rounding_is_to_the_nearest(bytes, grain(bytes));
    vstd::arithmetic::div_mod::lemma_mod_multiples_basic(
        rounded_div(bytes, grain(bytes)) as int,
        grain(bytes) as int,
    );
}

/// A rate below eight PiB per second is shown in the largest unit that it
/// reaches, rounded to the nearest tenth of a KiB, or hundredth of a MiB or
/// GiB, and to the even one where two are as near.
pub proof fn rates_are_shown_in_their_unit(bytes: nat)
    requires
        bytes < 0x20_0000_0000_0000,
    ensures
        bytes < 1024 ==> rate_text(bytes) == decimal(bytes) + " B/s"@,
        1024 <= bytes < 1024 * 1024 ==> exists|tenths: nat|
            #![trigger decimal(tenths / 10)]
            {
                &&& -1024 <= 2 * (tenths * 1024 - bytes * 10) <= 1024
                &&& 2 * (tenths * 1024 - bytes * 10) == 1024 || 2 * (tenths * 1024 - bytes * 10)
                    == -1024 ==> tenths % 2 == 0
                &&& rate_text(bytes) == decimal(tenths / 10) + seq![
                    '.',
                    (48 + tenths % 10) as char,
                ] + " KiB/s"@
            },
        1024 * 1024 <= bytes < 1024 * 1024 * 1024 ==> exists|hundredths: nat|
            #![trigger decimal(hundredths / 100)]
            {
                &&& -1048576 <= 2 * (hundredths * 1048576 - bytes * 100) <= 1048576
                &&& 2 * (hundredths * 1048576 - bytes * 100) == 1048576 || 2 * (hundredths
                    * 1048576 - bytes * 100) == -1048576 ==> hundredths % 2 == 0
                &&& rate_text(bytes) == decimal(hundredths / 100) + seq![
                    '.',
                    (48 + hundredths / 10 % 10) as char,
                    (48 + hundredths % 10) as char,
                ] + " MiB/s"@
            },
        bytes >= 1024 * 1024 * 1024 ==> exists|hundredths: nat|
            #![trigger decimal(hundredths / 100)]
            {
                &&& -1073741824 <= 2 * (hundredths * 1073741824 - bytes * 100) <= 1073741824
                &&& 2 * (hundredths * 1073741824 - bytes * 100) == 1073741824 || 2 * (hundredths
                    * 1073741824 - bytes * 100) == -1073741824 ==> hundredths % 2 == 0
                &&& rate_text(bytes) == decimal(hundredths / 100) + seq![
                    '.',
                    (48 + hundredths / 10 % 10) as char,
                    (48 + hundredths % 10) as char,
                ] + " GiB/s"@
            },
{
    small_rates_are_exact(bytes);
    if bytes < 1024 {
    } else if bytes < 1024 * 1024 {
        let tenths = rounded_div(bytes * 10, 1024);
        rounding_is_to_the_nearest(bytes * 10, 1024);
        assert(rate_text(bytes) =~= decimal(tenths / 10) + seq!['.', (48 + tenths % 10) as char]
            + " KiB/s"@);
    } else if bytes < 1024 * 1024 * 1024 {
        let hundredths = rounded_div(bytes * 100, 1048576);
        rounding_is_to_the_nearest(bytes * 100, 1048576);
        assert(rate_text(bytes) =~= decimal(hundredths / 100) + seq![
            '.',
            (48 + hundredths / 10 % 10) as char,
            (48 + hundredths % 10) as char,
        ] + " MiB/s"@);
    } else {
        let hundredths = rounded_div(bytes * 100, 1073741824);
        rounding_is_to_the_nearest(bytes * 100, 1073741824);
        assert(rate_text(bytes) =~= decimal(hundredths / 100) + seq![
            '.',
            (48 + hundredths / 10 % 10) as char,
            (48 + hundredths % 10) as char,
        ] + " GiB/s"@);
    }
}

/// A rate of eight PiB per second or more is shown in GiB, rounded to the
/// nearest hundredth of one from the nearest double-precision number.
pub proof fn largest_rates_are_shown_in_gib(bytes: nat)
    requires
        bytes >= 0x20_0000_0000_0000,
    ensures
        exists|hundredths: nat|
            #![trigger decimal(hundredths / 100)]
            {
                &&& -1073741824 <= 2 * (hundredths * 1073741824 - nearest_double(bytes) * 100)
                    <= 1073741824
                &&& 2 * (hundredths * 1073741824 - nearest_double(bytes) * 100) == 1073741824 || 2
                    * (hundredths * 1073741824 - nearest_double(bytes) * 100) == -1073741824
                    ==> hundredths % 2 == 0
                &&& rate_text(bytes) == decimal(hundredths / 100) + seq![
                    '.',
                    (48 + hundredths / 10 % 10) as char,
                    (48 + hundredths % 10) as char,
                ] + " GiB/s"@
            },
{
    large_rates_are_rounded_to_doubles(bytes);
    let value = nearest_double(bytes);
    let hundredths = rounded_div(value * 100, 1073741824);
    rounding_is_to_the_nearest(value * 100, 1073741824);
    assert(rate_text(bytes) =~= decimal(hundredths / 100) + seq![
        '.',
        (48 + hundredths / 10 % 10) as char,
        (48 + hundredths % 10) as char,
    ] + " GiB/s"@);
}

} // verus!

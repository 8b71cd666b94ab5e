//! Display text of the bar's blocks: volume, byte sizes, the clock.
use vstd::prelude::*;
use crate::text::{
    all_digits, decimal, digit_char, digit_char_of, digit_value, digits_value, parse_u32_spec,
    push_char, push_decimal,
};

verus! {

broadcast use vstd::string::group_string_axioms;

/// The muted-speaker icon.
pub const MUTED_ICON: char = '\u{eee8}';

/// The speaker icon shown for any volume above zero.
pub const VOLUME_ICON: char = '\u{f028}';

/// The icon of a volume level.
pub open spec fn volume_icon(vol: u32) -> char {
    if vol == 0 {
        MUTED_ICON
    } else {
        VOLUME_ICON
    }
}

/// The volume text: its icon, two spaces, the level in decimal.
pub open spec fn volume_text(vol: u32) -> Seq<char> {
    seq![volume_icon(vol), ' ', ' '] + decimal(vol as nat)
}

/// Formats a volume level with its icon.
pub fn format_volume(vol: u32) -> (r: String)
    ensures
        r@ == volume_text(vol),
{
    let icon = if vol == 0 {
        MUTED_ICON
    } else {
        VOLUME_ICON
    };
    let mut out = String::new();
    push_char(&mut out, icon);
    push_char(&mut out, ' ');
    push_char(&mut out, ' ');
    push_decimal(&mut out, vol as u64);
    assert(out@ =~= volume_text(vol));
    out
}

proof fn lemma_digit_char_value(d: nat)
    requires
        d < 10,
    ensures
        crate::text::is_digit(digit_char(d)),
        digit_value(digit_char(d)) == d,
{
}

/// The decimal text of a number reads back as that number.
pub proof fn lemma_decimal_reads_back(n: u32)
    ensures
        parse_u32_spec(decimal(n as nat)) == Some(n),
    decreases n,
{
    lemma_decimal_digits(n as nat);
    let d = decimal(n as nat);
    assert(d[0] != '+');
}

proof fn lemma_decimal_digits(n: nat)
    ensures
        decimal(n).len() > 0,
        all_digits(decimal(n)),
        digits_value(decimal(n)) == n,
        crate::text::is_digit(decimal(n)[0]),
    decreases n,
{
    let d = decimal(n);
    if n < 10 {
        lemma_digit_char_value(n);
        assert(d.drop_last() =~= Seq::<char>::empty());
        assert(digits_value(d) == digits_value(d.drop_last()) * 10 + digit_value(d.last()));
    } else {
        lemma_decimal_digits(n / 10);
        lemma_digit_char_value(n % 10);
        let p = decimal(n / 10);
        assert(d.drop_last() =~= p);
        assert(digits_value(d) == digits_value(p) * 10 + digit_value(d.last()));
        assert((n / 10) * 10 + n % 10 == n);
        assert(d[0] == p[0]);
        assert forall|k: int| 0 <= k < d.len() implies crate::text::is_digit(#[trigger] d[k]) by {
            if k < p.len() {
                assert(d[k] == p[k]);
            }
        }
    }
}

/// The volume text shows the muted icon exactly for level zero, and the
/// number after the icon and the two spaces reads back as the level itself.
pub proof fn lemma_volume_text(vol: u32)
    ensures
        volume_text(vol)[0] == MUTED_ICON <==> vol == 0,
        volume_text(vol).subrange(0, 3) == seq![volume_icon(vol), ' ', ' '],
        parse_u32_spec(volume_text(vol).subrange(3, volume_text(vol).len() as int)) == Some(vol),
{
    let t = volume_text(vol);
    assert(t.subrange(0, 3) =~= seq![volume_icon(vol), ' ', ' ']);
    assert(t.subrange(3, t.len() as int) =~= decimal(vol as nat));
    lemma_decimal_reads_back(vol);
}


/// The number of bytes in the unit with index `k` (B, KB, MB, ...): 1024 to the `k`.
pub open spec fn pow1024(k: nat) -> nat
    decreases k,
{
    if k == 0 {
        1
    } else {
        1024 * pow1024((k - 1) as nat)
    }
}

/// The byte count from which sizes are out of range: 1024 PB.
pub open spec fn size_limit() -> nat {
    pow1024(6)
}

/// The unit for `n` bytes, searched upward from unit `k`: the first whose next
/// unit is larger than `n`, PB at most.
pub open spec fn unit_from(n: nat, k: nat) -> nat
    decreases 5 - k,
{
    if k >= 5 || n < pow1024(k + 1) {
        k
    } else {
        unit_from(n, k + 1)
    }
}

/// The index of the unit in which `n` bytes are shown.
pub open spec fn unit_index(n: nat) -> nat {
    unit_from(n, 0)
}

/// `n` bytes in hundredths of the unit `u`, rounded to nearest, ties to even.
pub open spec fn hundredths(n: nat, u: nat) -> nat {
    let q = (n * 100) / u;
    let r = (n * 100) % u;
    if 2 * r > u || (2 * r == u && q % 2 == 1) {
        q + 1
    } else {
        q
    }
}

/// A count of hundredths written with two decimals.
pub open spec fn fixed2(q: nat) -> Seq<char> {
    decimal(q / 100) + seq!['.', digit_char((q / 10) % 10), digit_char(q % 10)]
}

/// The name of the unit with index `k`.
pub open spec fn unit_name(k: nat) -> Seq<char> {
    if k == 0 {
        seq!['B']
    } else if k == 1 {
        seq!['K', 'B']
    } else if k == 2 {
        seq!['M', 'B']
    } else if k == 3 {
        seq!['G', 'B']
    } else if k == 4 {
        seq!['T', 'B']
    } else {
        seq!['P', 'B']
    }
}

/// The human-readable text of a byte count, or nothing from 1024 PB on.
pub open spec fn bytes_text(n: nat) -> Option<Seq<char>> {
    if n >= size_limit() {
        None
    } else {
        let k = unit_index(n);
        Some(fixed2(hundredths(n, pow1024(k))) + unit_name(k))
    }
}

proof fn lemma_pow1024_values()
    ensures
        pow1024(0) == 1,
        pow1024(1) == 1024,
        pow1024(2) == 1048576,
        pow1024(3) == 1073741824,
        pow1024(4) == 1099511627776,
        pow1024(5) == 1125899906842624,
        pow1024(6) == 1152921504606846976,
{
    reveal_with_fuel(pow1024, 7);
}

/// Writes a byte count with two decimals in binary units (B, KB, MB, GB, TB,
/// PB); counts from 1024 PB on are out of range.
pub fn readable_bytes(n: u64) -> (r: Option<String>)
    ensures
        match r {
            Some(s) => bytes_text(n as nat) == Some(s@),
            None => bytes_text(n as nat) is None,
        },
{
    proof {
        lemma_pow1024_values();
    }
    let mut k: u64 = 0;
    let mut u: u64 = 1;
    while k < 5 && n >= u * 1024
        invariant
            k <= 5,
            u == pow1024(k as nat),
            unit_from(n as nat, k as nat) == unit_index(n as nat),
            pow1024(0) == 1,
            pow1024(1) == 1024,
            pow1024(2) == 1048576,
            pow1024(3) == 1073741824,
            pow1024(4) == 1099511627776,
            pow1024(5) == 1125899906842624,
            pow1024(6) == 1152921504606846976,
        decreases 5 - k,
    {
        assert(pow1024((k + 1) as nat) == 1024 * pow1024(k as nat));
        u = u * 1024;
        k = k + 1;
    }
    assert(pow1024((k + 1) as nat) == 1024 * pow1024(k as nat));
    if k == 5 && n >= u * 1024 {
        return None;
    }
    assert(unit_index(n as nat) == k);
    let num: u128 = n as u128 * 100;
    let uu: u128 = u as u128;
    let q0: u128 = num / uu;
    let rem: u128 = num % uu;
    assert(q0 < 102400) by (nonlinear_arith)
        requires
            num == n * 100,
            n < uu * 1024,
            q0 == num / uu,
            uu > 0,
    ;
    let q: u128 = if 2 * rem > uu || (2 * rem == uu && q0 % 2 == 1) {
        q0 + 1
    } else {
        q0
    };
    let q64: u64 = q as u64;
    let mut out = String::new();
    push_decimal(&mut out, q64 / 100);
    push_char(&mut out, '.');
    push_char(&mut out, digit_char_of((q64 / 10) % 10));
    push_char(&mut out, digit_char_of(q64 % 10));
    if k == 0 {
        push_char(&mut out, 'B');
    } else {
        let c = if k == 1 {
            'K'
        } else if k == 2 {
            'M'
        } else if k == 3 {
            'G'
        } else if k == 4 {
            'T'
        } else {
            'P'
        };
        push_char(&mut out, c);
        push_char(&mut out, 'B');
    }
    assert(out@ =~= fixed2(q as nat) + unit_name(k as nat));
    Some(out)
}

/// Below 1024 PB the text of `n` bytes is a number of hundredths `q`, written
/// with two decimals, and the name of a unit of `u` bytes; `q / 100` units
/// lie within half a hundredth of a unit of `n`: `|q/100 * u - n| <= u / 200`,
/// well within one unit step.
pub proof fn lemma_readable_bytes_close(n: nat)
    requires
        n < size_limit(),
    ensures
        ({
            let k = unit_index(n);
            let u = pow1024(k);
            let q = hundredths(n, u);
            &&& bytes_text(n) == Some(fixed2(q) + unit_name(k))
            &&& 2 * (q * u - 100 * n) <= u
            &&& 2 * (100 * n - q * u) <= u
        }),
{
    lemma_unit_positive(n, 0);
    let u = pow1024(unit_index(n));
    let q0 = (n * 100) / u;
    let r = (n * 100) % u;
    assert(n * 100 == q0 * u + r && 0 <= r < u) by (nonlinear_arith)
        requires
            u > 0,
            q0 == (n * 100) / u,
            r == (n * 100) % u,
    ;
    assert((q0 + 1) * u == q0 * u + u) by (nonlinear_arith);
}

proof fn lemma_unit_positive(n: nat, k: nat)
    ensures
        pow1024(unit_from(n, k)) > 0,
    decreases 5 - k,
{
    if k >= 5 || n < pow1024(k + 1) {
        lemma_pow1024_positive(k);
    } else {
        lemma_unit_positive(n, k + 1);
    }
}

proof fn lemma_pow1024_positive(k: nat)
    ensures
        pow1024(k) > 0,
    decreases k,
{
    if k > 0 {
        lemma_pow1024_positive((k - 1) as nat);
    }
}

/// A wall-clock time of day.
#[derive(Debug, Clone, Copy, PartialEq, Eq, Structural)]
pub struct ClockTime {
    pub hour: u32,
    pub minute: u32,
    pub second: u32,
}

impl ClockTime {
    /// A time of day within its ranges.
    pub open spec fn wf(&self) -> bool {
        self.hour < 24 && self.minute < 60 && self.second < 60
    }
}

/// A number below 100 written with two digits.
pub open spec fn two_digits(n: nat) -> Seq<char> {
    seq![digit_char(n / 10), digit_char(n % 10)]
}

/// The clock text `HH:MM:SS`.
pub open spec fn clock_text(t: ClockTime) -> Seq<char> {
    two_digits(t.hour as nat) + seq![':'] + two_digits(t.minute as nat) + seq![':']
        + two_digits(t.second as nat)
}

fn push_two_digits(out: &mut String, n: u32)
    requires
        n < 100,
    ensures
        final(out)@ == old(out)@ + two_digits(n as nat),
{
    push_char(out, digit_char_of((n / 10) as u64));
    push_char(out, digit_char_of((n % 10) as u64));
    assert(final(out)@ =~= old(out)@ + two_digits(n as nat));
}

/// Writes a time of day as `HH:MM:SS`.
pub fn format_clock(t: &ClockTime) -> (r: String)
    requires
        t.wf(),
    ensures
        r@ == clock_text(*t),
{
    let mut out = String::new();
    push_two_digits(&mut out, t.hour);
    push_char(&mut out, ':');
    push_two_digits(&mut out, t.minute);
    push_char(&mut out, ':');
    push_two_digits(&mut out, t.second);
    assert(out@ =~= clock_text(*t));
    out
}

}
